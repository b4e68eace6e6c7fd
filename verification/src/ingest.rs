//! Taking an uploaded page into the wiki by an agent, with one answer in the end or with a stream
//! of news.

use crate::entry::session_agent;
#[allow(unused_imports)]
use crate::entry::agent_for;
use crate::flow::{answer, fail, fail_stream, Action, ActionOf, Event};
#[allow(unused_imports)]
use crate::flow::{answer_with, break_with, fail_with, went_well, Act};
#[allow(unused_imports)]
use crate::history::{
    breaks,
    refuses,
    reports,
    session_found,
    told_answer,
    told_data,
    told_file,
    told_marks,
    told_name,
    told_time,
    turns_away,
    Steps,
};
use crate::llm::LlmEnv;
#[allow(unused_imports)]
use crate::llm::loaded_settings;
use crate::paths::join_path;
#[allow(unused_imports)]
use crate::paths::under;
use crate::prompts::ingest_prompt;
#[allow(unused_imports)]
use crate::prompts::ingest_text;
use crate::reply::{text_field, texts_field, three, two, Reply};
#[allow(unused_imports)]
use crate::reply::{text_member, texts_member, Answer, Member, ValueOf};
use crate::snapshot::{diff_snapshots, snapshot, FileMark, Snapshot};
#[allow(unused_imports)]
use crate::snapshot::{changed, mark_models, snapshot_of, Mark};
use crate::state::{AppState, NO_LLM};
#[allow(unused_imports)]
use crate::state::{llm_ready, locked_out, with_fresh_llm, with_session, App};
use crate::text::{cat, cat3, copy_texts, number, texts};
#[allow(unused_imports)]
use crate::text::decimal;
use vstd::prelude::*;

verus! {

/// How far an ingestion has come.
#[derive(Debug, Clone, Copy, PartialEq, Eq, Structural)]
pub enum IngestPhase {
    Start,
    Configuring,
    Uploading,
    Streaming,
    Locking,
    Sharing,
    LockingSession,
    Opening,
    MarkingBefore,
    Timing,
    Storing,
    Asking,
    MarkingAfter,
    Sealing,
    Finished,
}

/// An ingestion that is being worked off.
pub struct IngestRun {
    pub phase: IngestPhase,
    /// News are wanted.
    pub stream: bool,
    /// The file that was uploaded.
    pub filename: String,
    pub content: Vec<u8>,
    /// The directory of the session, and where the file is put in it.
    pub work: String,
    pub rel: String,
    /// The files before the agent came.
    pub before: Snapshot,
    /// What the agent answered, and the files that it changed.
    pub report: String,
    pub files: Vec<String>,
}

/// The mathematical content of an ingestion.
pub struct Ingestion {
    pub phase: IngestPhase,
    pub stream: bool,
    pub filename: Seq<char>,
    pub content: Seq<u8>,
    pub work: Seq<char>,
    pub rel: Seq<char>,
    pub before: Seq<Mark>,
    pub report: Seq<char>,
    pub files: Seq<Seq<char>>,
}

impl View for IngestRun {
    type V = Ingestion;

    open spec fn view(&self) -> Ingestion {
        Ingestion {
            phase: self.phase,
            stream: self.stream,
            filename: self.filename@,
            content: self.content@,
            work: self.work@,
            rel: self.rel@,
            before: self.before@,
            report: self.report@,
            files: texts(self.files@),
        }
    }
}

/// An ingestion that has not begun.
pub open spec fn new_ingestion(stream: bool) -> Ingestion {
    Ingestion {
        phase: IngestPhase::Start,
        stream,
        filename: ""@,
        content: seq![],
        work: ""@,
        rel: ""@,
        before: snapshot_of(seq![]),
        report: ""@,
        files: seq![],
    }
}

/// An ingestion that goes no further.
pub open spec fn over(run: Ingestion, app: App, a: Act) -> (Ingestion, App, Act) {
    (Ingestion { phase: IngestPhase::Finished, ..run }, app, a)
}

/// How a failure is told: as the answer, or, where a stream has begun, as its last object.
pub open spec fn trouble(run: Ingestion, status: u16, why: Seq<char>) -> Act {
    if run.stream {
        break_with(why)
    } else {
        fail_with(status, why)
    }
}

pub open spec fn ingest_gate(run: Ingestion, app: App) -> (Ingestion, App, Act) {
    if app.gateway.unlocked {
        (Ingestion { phase: IngestPhase::Uploading, ..run }, app, ActionOf::Upload)
    } else {
        over(run, app, answer_with(locked_out()))
    }
}

pub open spec fn ingest_start(run: Ingestion, app: App) -> (Ingestion, App, Act) {
    if llm_ready(app) {
        ingest_gate(run, app)
    } else {
        (
            Ingestion { phase: IngestPhase::Configuring, ..run },
            app,
            ActionOf::LoadLlm(app.config_path),
        )
    }
}

pub open spec fn ingest_configured(
    run: Ingestion,
    app: App,
    file: Option<String>,
    env: LlmEnv,
) -> (Ingestion, App, Act) {
    if loaded_settings(file, env).api_key.len() > 0 {
        ingest_gate(run, with_fresh_llm(app, file, env))
    } else {
        over(run, app, fail_with(503, NO_LLM@))
    }
}

pub open spec fn ingest_uploaded(
    run: Ingestion,
    app: App,
    r: Result<(String, Vec<u8>), Reply>,
) -> (Ingestion, App, Act) {
    match r {
        Err(reply) => over(run, app, answer_with(reply@)),
        Ok((name, data)) => {
            let now = Ingestion { filename: name@, content: data@, ..run };
            if run.stream {
                (
                    Ingestion { phase: IngestPhase::Streaming, ..now },
                    app,
                    ActionOf::StartStream,
                )
            } else {
                (Ingestion { phase: IngestPhase::Locking, ..now }, app, ActionOf::LockVault)
            }
        },
    }
}

/// Works in the session of the service.
pub open spec fn ingest_begin(run: Ingestion, app: App, dir: Seq<char>) -> (Ingestion, App, Act) {
    (
        Ingestion { phase: IngestPhase::MarkingBefore, work: dir, ..run },
        app,
        ActionOf::Mark(dir),
    )
}

pub open spec fn ingest_locked(run: Ingestion, app: App) -> (Ingestion, App, Act) {
    match app.session {
        Some(s) => ingest_begin(run, app, s.work_dir),
        None => (
            Ingestion { phase: IngestPhase::Opening, ..run },
            app,
            ActionOf::OpenSession { discard: None },
        ),
    }
}

/// The session of the service is used, if there is one. Otherwise one is to be opened, and no
/// other request may do that meanwhile.
pub open spec fn ingest_shared(run: Ingestion, app: App) -> (Ingestion, App, Act) {
    match app.session {
        Some(s) => ingest_begin(run, app, s.work_dir),
        None => (
            Ingestion { phase: IngestPhase::LockingSession, ..run },
            app,
            ActionOf::LockSession,
        ),
    }
}

pub open spec fn ingest_opened(
    run: Ingestion,
    app: App,
    r: Result<(String, String), String>,
) -> (Ingestion, App, Act) {
    match r {
        Ok((id, dir)) => ingest_begin(run, with_session(app, id@, dir@), dir@),
        Err(why) => over(
            run,
            app,
            if run.stream {
                break_with("打开解密会话失败"@)
            } else {
                fail_with(423, "打开解密会话失败："@ + why@)
            },
        ),
    }
}

pub open spec fn ingest_marked_before(run: Ingestion, app: App, marks: Seq<FileMark>) -> (
    Ingestion,
    App,
    Act,
) {
    (
        Ingestion {
            phase: IngestPhase::Timing,
            before: snapshot_of(mark_models(marks)),
            ..run
        },
        app,
        ActionOf::Clock,
    )
}

/// Where a file is put that is uploaded at the given time.
pub open spec fn inbox_path(time: nat) -> Seq<char> {
    "inbox/upload-"@ + decimal(time) + ".md"@
}

pub open spec fn ingest_timed(run: Ingestion, app: App, time: nat) -> (Ingestion, App, Act) {
    (
        Ingestion {
            phase: IngestPhase::Storing,
            rel: inbox_path(time),
            content: seq![],
            ..run
        },
        app,
        ActionOf::Store { path: under(run.work, inbox_path(time)), data: run.content },
    )
}

pub open spec fn ingest_stored(run: Ingestion, app: App, r: Result<(), String>) -> (
    Ingestion,
    App,
    Act,
) {
    match r {
        Err(why) => over(run, app, trouble(run, 500, why@)),
        Ok(()) => (
            Ingestion { phase: IngestPhase::Asking, ..run },
            app,
            ActionOf::Ask {
                agent: agent_for(app, run.work),
                prompt: ingest_text(run.rel, run.filename),
                stream: run.stream,
            },
        ),
    }
}

pub open spec fn ingest_answered(
    run: Ingestion,
    app: App,
    r: Result<String, String>,
    sent_error: bool,
) -> (Ingestion, App, Act) {
    match r {
        Ok(report) => (
            Ingestion { phase: IngestPhase::MarkingAfter, report: report@, ..run },
            app,
            ActionOf::Mark(run.work),
        ),
        Err(why) => over(
            run,
            app,
            if !run.stream {
                fail_with(500, "Agent 入库失败："@ + why@)
            } else if sent_error {
                ActionOf::Finish(None)
            } else {
                break_with(why@)
            },
        ),
    }
}

pub open spec fn ingest_marked_after(run: Ingestion, app: App, marks: Seq<FileMark>) -> (
    Ingestion,
    App,
    Act,
) {
    (
        Ingestion {
            phase: IngestPhase::Sealing,
            files: changed(run.before, snapshot_of(mark_models(marks))),
            ..run
        },
        app,
        ActionOf::Seal(run.work),
    )
}

/// What an ingestion that succeeded is answered, or what its stream ends with.
pub open spec fn ingest_report(run: Ingestion) -> Act {
    if run.stream {
        ActionOf::Finish(
            Some(
                seq![
                    text_member("type"@, "done"@),
                    text_member("answer"@, run.report),
                    texts_member("files"@, run.files),
                ],
            ),
        )
    } else {
        answer_with(
            Answer {
                status: 200,
                body: seq![text_member("answer"@, run.report), texts_member("files"@, run.files)],
            },
        )
    }
}

pub open spec fn ingest_sealed(run: Ingestion, app: App, r: Result<(), String>) -> (
    Ingestion,
    App,
    Act,
) {
    match r {
        Err(why) => over(run, app, trouble(run, 500, "封印失败："@ + why@)),
        Ok(()) => over(run, app, ingest_report(run)),
    }
}

/// What an ingestion does next.
pub open spec fn ingest_next(run: Ingestion, app: App, ev: Event) -> (Ingestion, App, Act) {
    match (run.phase, ev) {
        (IngestPhase::Start, Event::Start) => ingest_start(run, app),
        (IngestPhase::Configuring, Event::Llm { file, env }) => ingest_configured(
            run,
            app,
            file,
            env,
        ),
        (IngestPhase::Uploading, Event::Uploaded(r)) => ingest_uploaded(run, app, r),
        (IngestPhase::Streaming, Event::Ready) => (
            Ingestion { phase: IngestPhase::Locking, ..run },
            app,
            ActionOf::LockVault,
        ),
        (IngestPhase::Locking, Event::Ready) => (
            Ingestion { phase: IngestPhase::Sharing, ..run },
            app,
            ActionOf::ShareSession,
        ),
        (IngestPhase::Sharing, Event::Ready) => ingest_shared(run, app),
        (IngestPhase::LockingSession, Event::Ready) => ingest_locked(run, app),
        (IngestPhase::Opening, Event::Opened(r)) => ingest_opened(run, app, r),
        (IngestPhase::MarkingBefore, Event::Marks(marks)) => ingest_marked_before(run, app, marks@),
        (IngestPhase::Timing, Event::Time(time)) => ingest_timed(run, app, time as nat),
        (IngestPhase::Storing, Event::Done(r)) => ingest_stored(run, app, r),
        (IngestPhase::Asking, Event::Answered { result, sent_error }) => ingest_answered(
            run,
            app,
            result,
            sent_error,
        ),
        (IngestPhase::MarkingAfter, Event::Marks(marks)) => ingest_marked_after(run, app, marks@),
        (IngestPhase::Sealing, Event::Done(r)) => ingest_sealed(run, app, r),
        _ => over(run, app, ActionOf::Misfit),
    }
}

impl IngestRun {
    /// A request to ingest, with one answer or with a stream.
    pub fn new(stream: bool) -> (run: IngestRun)
        ensures
            run@ == new_ingestion(stream),
    {
        let none: Vec<FileMark> = Vec::new();
        assert(mark_models(none@) =~= seq![]);
        let content: Vec<u8> = Vec::new();
        let run = IngestRun {
            phase: IngestPhase::Start,
            stream,
            filename: "".to_owned(),
            content,
            work: "".to_owned(),
            rel: "".to_owned(),
            before: snapshot(none),
            report: "".to_owned(),
            files: Vec::new(),
        };
        assert(run@.files =~= seq![]);
        assert(run@.content =~= seq![]);
        run
    }

    fn end(&mut self, a: Action) -> (r: Action)
        ensures
            final(self)@ == (Ingestion { phase: IngestPhase::Finished, ..old(self)@ }),
            r == a,
    {
        self.phase = IngestPhase::Finished;
        a
    }

    fn trouble(&self, status: u16, why: String) -> (a: Action)
        ensures
            a@ == trouble(self@, status, why@),
    {
        if self.stream {
            fail_stream(why)
        } else {
            fail(status, why)
        }
    }

    fn gate(&mut self, app: &AppState) -> (a: Action)
        ensures
            (final(self)@, app@, a@) == ingest_gate(old(self)@, app@),
    {
        match app.check_gate() {
            Ok(()) => {
                self.phase = IngestPhase::Uploading;
                ActionOf::Upload
            },
            Err(reply) => self.end(answer(reply)),
        }
    }

    fn start(&mut self, app: &AppState) -> (a: Action)
        ensures
            (final(self)@, app@, a@) == ingest_start(old(self)@, app@),
    {
        if app.llm_ready() {
            self.gate(app)
        } else {
            self.phase = IngestPhase::Configuring;
            ActionOf::LoadLlm(app.config_path.clone())
        }
    }

    fn configured(&mut self, app: &mut AppState, file: Option<String>, env: LlmEnv) -> (a: Action)
        ensures
            (final(self)@, final(app)@, a@) == ingest_configured(old(self)@, old(app)@, file, env),
    {
        if app.refresh_llm(&file, &env) {
            self.gate(app)
        } else {
            self.end(fail(503, NO_LLM.to_owned()))
        }
    }

    fn uploaded(&mut self, app: &AppState, r: Result<(String, Vec<u8>), Reply>) -> (a: Action)
        ensures
            (final(self)@, app@, a@) == ingest_uploaded(old(self)@, app@, r),
    {
        match r {
            Err(reply) => self.end(answer(reply)),
            Ok((name, data)) => {
                self.filename = name;
                self.content = data;
                if self.stream {
                    self.phase = IngestPhase::Streaming;
                    ActionOf::StartStream
                } else {
                    self.phase = IngestPhase::Locking;
                    ActionOf::LockVault
                }
            },
        }
    }

    fn begin(&mut self, app: &AppState, dir: String) -> (a: Action)
        ensures
            (final(self)@, app@, a@) == ingest_begin(old(self)@, app@, dir@),
    {
        self.work = dir.clone();
        self.phase = IngestPhase::MarkingBefore;
        ActionOf::Mark(dir)
    }

    fn shared(&mut self, app: &AppState) -> (a: Action)
        ensures
            (final(self)@, app@, a@) == ingest_shared(old(self)@, app@),
    {
        match app.session_dir() {
            Some(dir) => self.begin(app, dir),
            None => {
                self.phase = IngestPhase::LockingSession;
                ActionOf::LockSession
            },
        }
    }

    fn locked(&mut self, app: &AppState) -> (a: Action)
        ensures
            (final(self)@, app@, a@) == ingest_locked(old(self)@, app@),
    {
        match app.session_dir() {
            Some(dir) => self.begin(app, dir),
            None => {
                self.phase = IngestPhase::Opening;
                ActionOf::OpenSession { discard: None }
            },
        }
    }

    fn opened(&mut self, app: &mut AppState, r: Result<(String, String), String>) -> (a: Action)
        ensures
            (final(self)@, final(app)@, a@) == ingest_opened(old(self)@, old(app)@, r),
    {
        match r {
            Ok((id, dir)) => {
                let copy = dir.clone();
                app.adopt_session(id, dir);
                self.begin(app, copy)
            },
            Err(why) => {
                let a = if self.stream {
                    fail_stream("打开解密会话失败".to_owned())
                } else {
                    fail(423, cat("打开解密会话失败：", why.as_str()))
                };
                self.end(a)
            },
        }
    }

    fn timed(&mut self, app: &AppState, time: u128) -> (a: Action)
        ensures
            (final(self)@, app@, a@) == ingest_timed(old(self)@, app@, time as nat),
    {
        let n = number(time);
        let rel = cat3("inbox/upload-", n.as_str(), ".md");
        let path = join_path(self.work.as_str(), rel.as_str());
        let mut data: Vec<u8> = Vec::new();
        std::mem::swap(&mut data, &mut self.content);
        assert(self.content@ =~= seq![]);
        self.rel = rel;
        self.phase = IngestPhase::Storing;
        ActionOf::Store { path, data }
    }

    fn stored(&mut self, app: &AppState, r: Result<(), String>) -> (a: Action)
        ensures
            (final(self)@, app@, a@) == ingest_stored(old(self)@, app@, r),
    {
        match r {
            Err(why) => {
                let a = self.trouble(500, why);
                self.end(a)
            },
            Ok(()) => {
                self.phase = IngestPhase::Asking;
                ActionOf::Ask {
                    agent: session_agent(app, self.work.as_str()),
                    prompt: ingest_prompt(self.rel.as_str(), self.filename.as_str()),
                    stream: self.stream,
                }
            },
        }
    }

    fn answered(&mut self, app: &AppState, r: Result<String, String>, sent_error: bool) -> (a:
        Action)
        ensures
            (final(self)@, app@, a@) == ingest_answered(old(self)@, app@, r, sent_error),
    {
        match r {
            Ok(report) => {
                self.report = report;
                self.phase = IngestPhase::MarkingAfter;
                ActionOf::Mark(self.work.clone())
            },
            Err(why) => {
                let a = if !self.stream {
                    fail(500, cat("Agent 入库失败：", why.as_str()))
                } else if sent_error {
                    ActionOf::Finish(None)
                } else {
                    fail_stream(why)
                };
                self.end(a)
            },
        }
    }

    fn marked_after(&mut self, app: &AppState, marks: Vec<FileMark>) -> (a: Action)
        ensures
            (final(self)@, app@, a@) == ingest_marked_after(old(self)@, app@, marks@),
    {
        let after = snapshot(marks);
        self.files = diff_snapshots(&self.before, &after);
        self.phase = IngestPhase::Sealing;
        ActionOf::Seal(self.work.clone())
    }

    fn report(&self) -> (a: Action)
        ensures
            a@ == ingest_report(self@),
    {
        let said = text_field("answer", self.report.clone());
        let files = texts_field("files", copy_texts(&self.files));
        if self.stream {
            ActionOf::Finish(Some(three(text_field("type", "done".to_owned()), said, files)))
        } else {
            answer(Reply { status: 200, body: two(said, files) })
        }
    }

    fn sealed(&mut self, app: &AppState, r: Result<(), String>) -> (a: Action)
        ensures
            (final(self)@, app@, a@) == ingest_sealed(old(self)@, app@, r),
    {
        let a = match r {
            Err(why) => self.trouble(500, cat("封印失败：", why.as_str())),
            Ok(()) => self.report(),
        };
        self.end(a)
    }

    /// What is to be done next.
    pub fn next(&mut self, app: &mut AppState, ev: Event) -> (a: Action)
        ensures
            (final(self)@, final(app)@, a@) == ingest_next(old(self)@, old(app)@, ev),
    {
        match (self.phase, ev) {
            (IngestPhase::Start, Event::Start) => self.start(app),
            (IngestPhase::Configuring, Event::Llm { file, env }) => self.configured(app, file, env),
            (IngestPhase::Uploading, Event::Uploaded(r)) => self.uploaded(app, r),
            (IngestPhase::Streaming, Event::Ready) => {
                self.phase = IngestPhase::Locking;
                ActionOf::LockVault
            },
            (IngestPhase::Locking, Event::Ready) => {
                self.phase = IngestPhase::Sharing;
                ActionOf::ShareSession
            },
            (IngestPhase::Sharing, Event::Ready) => self.shared(app),
            (IngestPhase::LockingSession, Event::Ready) => self.locked(app),
            (IngestPhase::Opening, Event::Opened(r)) => self.opened(app, r),
            (IngestPhase::MarkingBefore, Event::Marks(marks)) => {
                self.before = snapshot(marks);
                self.phase = IngestPhase::Timing;
                ActionOf::Clock
            },
            (IngestPhase::Timing, Event::Time(time)) => self.timed(app, time),
            (IngestPhase::Storing, Event::Done(r)) => self.stored(app, r),
            (IngestPhase::Asking, Event::Answered { result, sent_error }) => self.answered(
                app,
                result,
                sent_error,
            ),
            (IngestPhase::MarkingAfter, Event::Marks(marks)) => self.marked_after(app, marks),
            (IngestPhase::Sealing, Event::Done(r)) => self.sealed(app, r),
            _ => self.end(ActionOf::Misfit),
        }
    }
}

// ---------------------------------------------------------------------------
// Laws
// ---------------------------------------------------------------------------

/// A success is told only on word that the session was sealed: no other step ends so.
pub proof fn law_ingestion_is_sealed_before_it_is_reported(run: Ingestion, app: App, ev: Event)
    requires
        ev matches Event::Uploaded(r) ==> (r matches Err(reply) ==> reply.status != 200),
        match ingest_next(run, app, ev).2 {
            ActionOf::Respond { status, body } => status == 200,
            ActionOf::Finish(Some(last)) => last[0] != text_member("type"@, "error"@),
            _ => false,
        },
    ensures
        run.phase == IngestPhase::Sealing,
        went_well(ev),
        ingest_next(run, app, ev).2 == ingest_report(run),
{
}

/// A stream that has begun ends as a stream: no answer is given in its place.
pub proof fn law_streams_end_as_streams(run: Ingestion, app: App, ev: Event)
    requires
        run.stream,
        run.phase != IngestPhase::Start,
        run.phase != IngestPhase::Configuring,
        run.phase != IngestPhase::Uploading,
    ensures
        !(ingest_next(run, app, ev).2 is Respond),
{
}

/// Without a model a request to ingest is answered 503, whatever the gateway; with one, a closed gateway
/// turns it away. In both cases nothing is received.
pub proof fn law_ingestion_needs_a_model_and_an_open_gate(
    stream: bool,
    app: App,
    file: Option<String>,
    env: LlmEnv,
)
    ensures
        llm_ready(app) && !app.gateway.unlocked ==> ingest_next(
            new_ingestion(stream),
            app,
            Event::Start,
        ).2 == answer_with(locked_out()),
        !llm_ready(app) ==> ingest_next(new_ingestion(stream), app, Event::Start).2
            == Act::LoadLlm(app.config_path),
        loaded_settings(file, env).api_key.len() == 0 ==> ingest_configured(
            new_ingestion(stream),
            app,
            file,
            env,
        ).2 == fail_with(503, NO_LLM@),
        loaded_settings(file, env).api_key.len() > 0 && !app.gateway.unlocked
            ==> ingest_configured(new_ingestion(stream), app, file, env).2 == answer_with(
            locked_out(),
        ),
{
}

/// An ingestion after some steps, each with the state of the service at that moment, which other
/// requests may have changed, and with what the last action came to.
pub open spec fn ingest_after(run: Ingestion, steps: Steps) -> Ingestion
    decreases steps.len(),
{
    if steps.len() == 0 {
        run
    } else {
        let last = steps.last();
        ingest_next(ingest_after(run, steps.drop_last()), last.0, last.1).0
    }
}

/// What the last of some steps asks for.
pub open spec fn ingest_last(run: Ingestion, steps: Steps) -> Act
    recommends
        steps.len() > 0,
{
    let last = steps.last();
    ingest_next(ingest_after(run, steps.drop_last()), last.0, last.1).2
}

/// The phases of an ingestion in their order.
spec fn place(p: IngestPhase) -> int {
    match p {
        IngestPhase::Start => 0,
        IngestPhase::Configuring => 1,
        IngestPhase::Uploading => 2,
        IngestPhase::Streaming => 3,
        IngestPhase::Locking => 4,
        IngestPhase::Sharing => 5,
        IngestPhase::LockingSession => 6,
        IngestPhase::Opening => 7,
        IngestPhase::MarkingBefore => 8,
        IngestPhase::Timing => 9,
        IngestPhase::Storing => 10,
        IngestPhase::Asking => 11,
        IngestPhase::MarkingAfter => 12,
        IngestPhase::Sealing => 13,
        IngestPhase::Finished => 14,
    }
}

/// What an ingestion holds is what it was told.
spec fn knows(stream: bool, steps: Steps) -> bool {
    let run = ingest_after(new_ingestion(stream), steps);
    let at = place(run.phase);
    &&& run.stream == stream
    &&& at == 0 ==> steps.len() == 0
    &&& 3 <= at <= 13 ==> told_file(steps) is Some && run.filename == told_name(steps)
    &&& 3 <= at <= 9 ==> run.content == told_data(steps)
    &&& 8 <= at <= 13 ==> Some(run.work) == session_found(steps)
    &&& 0 <= at <= 8 ==> told_marks(steps) == Seq::<Seq<Mark>>::empty()
    &&& 9 <= at <= 12 ==> told_marks(steps).len() == 1 && run.before == snapshot_of(
        told_marks(steps)[0],
    )
    &&& 10 <= at <= 13 ==> told_time(steps) is Some && run.rel == "inbox/upload-"@ + decimal(
        told_time(steps)->0,
    ) + ".md"@
    &&& 12 <= at <= 13 ==> Some(run.report) == told_answer(steps)
    &&& at == 13 ==> told_marks(steps).len() == 2 && run.files == changed(
        snapshot_of(told_marks(steps)[0]),
        snapshot_of(told_marks(steps)[1]),
    )
}

#[verifier::spinoff_prover]
#[verifier::rlimit(60)]
proof fn lemma_knows(stream: bool, steps: Steps)
    ensures
        knows(stream, steps),
    decreases steps.len(),
{
    if steps.len() > 0 {
        lemma_knows(stream, steps.drop_last());
    }
}

/// What an ingestion does, at every step of every run: the uploaded bytes, all of them and no others,
/// are stored in the inbox of the session that it found or opened, under the time; the agent is put
/// to work in that session, with the current settings, on the file that was stored, and is told the
/// name that the file was uploaded under; and the same session is marked and sealed.
pub proof fn law_ingestion_takes_in_the_upload(stream: bool, steps: Steps)
    requires
        steps.len() > 0,
    ensures
        match ingest_last(new_ingestion(stream), steps) {
            ActionOf::Store { path, data } => told_file(steps) is Some && data == told_data(steps)
                && session_found(steps) is Some && told_time(steps) is Some && path == under(
                session_found(steps)->0,
                "inbox/upload-"@ + decimal(told_time(steps)->0) + ".md"@,
            ),
            ActionOf::Ask { agent, prompt, stream: news } => (news <==> stream) && Some(
                agent.work_dir,
            ) == session_found(steps) && agent.skills_root == steps.last().0.skills_root
                && agent.llm == steps.last().0.llm && agent.mindrule is None && prompt
                == ingest_text(
                "inbox/upload-"@ + decimal(told_time(steps)->0) + ".md"@,
                told_name(steps),
            ) && (ingest_last(
                new_ingestion(stream),
                steps.drop_last(),
            ) matches ActionOf::Store { path, data } && path == under(
                agent.work_dir,
                "inbox/upload-"@ + decimal(told_time(steps)->0) + ".md"@,
            )) && went_well(steps.last().1),
            ActionOf::Mark(dir) => Some(dir) == session_found(steps),
            ActionOf::Seal(dir) => Some(dir) == session_found(steps),
            ActionOf::OpenSession { discard } => discard is None && steps.last().0.session is None,
            _ => true,
        },
{
    let less = steps.drop_last();
    lemma_knows(stream, less);
    lemma_knows(stream, steps);
    if less.len() > 0 {
        lemma_knows(stream, less.drop_last());
    }
}

/// What an ingestion that succeeded is answered, or its stream ends with, in every run: what the
/// agent answered, and the files that changed while it was there.
pub proof fn law_ingestion_reports_what_it_was_told(stream: bool, steps: Steps)
    requires
        steps.len() > 0,
        ingest_after(new_ingestion(stream), steps.drop_last()).phase == IngestPhase::Sealing,
        went_well(steps.last().1),
    ensures
        told_answer(steps) is Some,
        told_marks(steps).len() == 2,
        ({
            let said = Member { key: "answer"@, value: ValueOf::Text(told_answer(steps)->0) };
            let files = Member {
                key: "files"@,
                value: ValueOf::Texts(
                    changed(snapshot_of(told_marks(steps)[0]), snapshot_of(told_marks(steps)[1])),
                ),
            };
            let a = ingest_last(new_ingestion(stream), steps);
            if stream {
                a == Act::Finish(
                    Some(
                        seq![
                            Member { key: "type"@, value: ValueOf::Text("done"@) },
                            said,
                            files,
                        ],
                    ),
                )
            } else {
                reports(a, seq![said, files])
            }
        }),
{
    lemma_knows(stream, steps.drop_last());
}

/// What an ingestion is answered, or its stream ends with, when something goes wrong on its way, at
/// the step where it does. An error that has been passed on as news is not told again.
pub proof fn law_ingestion_says_what_went_wrong(
    run: Ingestion,
    app: App,
    why: String,
    reply: Reply,
    sent_error: bool,
)
    ensures
        run.phase == IngestPhase::Start && app.llm.api_key.len() > 0 && !app.gateway.unlocked
            ==> turns_away(ingest_next(run, app, Event::Start).2),
        run.phase == IngestPhase::Uploading ==> ingest_next(
            run,
            app,
            Event::Uploaded(Err(reply)),
        ).2 == (Act::Respond { status: reply.status, body: crate::reply::members(reply.body@) }),
        run.phase == IngestPhase::Opening ==> ({
            let a = ingest_next(run, app, Event::Opened(Err(why))).2;
            &&& run.stream ==> breaks(a, "打开解密会话失败"@)
            &&& !run.stream ==> refuses(a, 423, "打开解密会话失败："@ + why@)
        }),
        run.phase == IngestPhase::Storing ==> ({
            let a = ingest_next(run, app, Event::Done(Err(why))).2;
            &&& run.stream ==> breaks(a, why@)
            &&& !run.stream ==> refuses(a, 500, why@)
        }),
        run.phase == IngestPhase::Asking ==> ({
            let a = ingest_next(run, app, Event::Answered { result: Err(why), sent_error }).2;
            &&& !run.stream ==> refuses(a, 500, "Agent 入库失败："@ + why@)
            &&& run.stream && sent_error ==> a == Act::Finish(None)
            &&& run.stream && !sent_error ==> breaks(a, why@)
        }),
        run.phase == IngestPhase::Sealing ==> ({
            let a = ingest_next(run, app, Event::Done(Err(why))).2;
            &&& run.stream ==> breaks(a, "封印失败："@ + why@)
            &&& !run.stream ==> refuses(a, 500, "封印失败："@ + why@)
        }),
{
}

/// An ingestion goes on from step to step as long as nothing goes wrong: it looks for settings only
/// if it has none, and opens a session only if there is none.
pub proof fn law_ingestion_goes_on(run: Ingestion, app: App, ev: Event)
    ensures
        ({
            let (now, after, a) = ingest_next(run, app, ev);
            &&& run.phase == IngestPhase::Start && ev is Start && app.llm.api_key.len() > 0
                && app.gateway.unlocked ==> a == Act::Upload && now.phase == IngestPhase::Uploading
                && after == app
            &&& run.phase == IngestPhase::Start && ev is Start && app.llm.api_key.len() == 0 ==> a
                == Act::LoadLlm(app.config_path) && now.phase == IngestPhase::Configuring && after
                == app
            &&& run.phase == IngestPhase::Configuring ==> (ev matches Event::Llm { file, env } ==> ({
                let llm = loaded_settings(file, env);
                &&& llm.api_key.len() == 0 ==> after == app && refuses(
                    a,
                    503,
                    "未配置 LLM：请在设置页填写模型配置并保存，或设置环境变量 MW_LLM_API_KEY（可选 MW_LLM_PROVIDER / MW_LLM_BASE_URL / MW_LLM_MODEL）后重启 mindwiki serve"@,
                )
                &&& llm.api_key.len() > 0 ==> after == (App { llm, ..app })
                &&& llm.api_key.len() > 0 && app.gateway.unlocked ==> a == Act::Upload && now.phase
                    == IngestPhase::Uploading
                &&& llm.api_key.len() > 0 && !app.gateway.unlocked ==> turns_away(a)
            }))
            &&& run.phase == IngestPhase::Uploading && (ev matches Event::Uploaded(r) && r is Ok)
                ==> (if run.stream {
                a == Act::StartStream && now.phase == IngestPhase::Streaming
            } else {
                a == Act::LockVault && now.phase == IngestPhase::Locking
            })
            &&& run.phase == IngestPhase::Streaming && ev is Ready ==> a == Act::LockVault
                && now.phase == IngestPhase::Locking
            &&& run.phase == IngestPhase::Locking && ev is Ready ==> a == Act::ShareSession
                && now.phase == IngestPhase::Sharing
            &&& run.phase == IngestPhase::Sharing && ev is Ready ==> (if app.session is Some {
                a is Mark && now.phase == IngestPhase::MarkingBefore
            } else {
                a == Act::LockSession && now.phase == IngestPhase::LockingSession
            })
            &&& run.phase == IngestPhase::LockingSession && ev is Ready ==> (if app.session is Some {
                a is Mark && now.phase == IngestPhase::MarkingBefore
            } else {
                a is OpenSession && now.phase == IngestPhase::Opening
            })
            &&& run.phase == IngestPhase::Opening ==> (ev matches Event::Opened(Ok((id, dir)))
                ==> a is Mark && now.phase == IngestPhase::MarkingBefore && (
            after.session matches Some(s) && s.id == id@ && s.work_dir == dir@ && !s.terminate)
                && after.gateway.sessions == app.gateway.sessions.insert(id@, dir@))
            &&& run.phase == IngestPhase::MarkingBefore && ev is Marks ==> a == Act::Clock
                && now.phase == IngestPhase::Timing
            &&& run.phase == IngestPhase::Timing && ev is Time ==> a is Store && now.phase
                == IngestPhase::Storing
            &&& run.phase == IngestPhase::Storing && went_well(ev) ==> a is Ask && now.phase
                == IngestPhase::Asking
            &&& run.phase == IngestPhase::Asking && (ev matches Event::Answered {
                result,
                sent_error,
            } && result is Ok) ==> a is Mark && now.phase == IngestPhase::MarkingAfter
            &&& run.phase == IngestPhase::MarkingAfter && ev is Marks ==> a is Seal && now.phase
                == IngestPhase::Sealing
        }),
{
}

/// An ingestion changes nothing in the state but settings that it had to look for, and a session that
/// it had to open.
pub proof fn law_ingestion_leaves_the_rest(run: Ingestion, app: App, ev: Event)
    ensures
        ({
            let now = ingest_next(run, app, ev).1;
            &&& now.root == app.root
            &&& now.admin_token == app.admin_token
            &&& now.skills_root == app.skills_root
            &&& now.config_path == app.config_path
            &&& now.chat == app.chat
            &&& now.gateway.salt == app.gateway.salt
            &&& now.gateway.token == app.gateway.token
            &&& now.gateway.closed_at == app.gateway.closed_at
            &&& now.llm != app.llm ==> ev is Llm && run.phase == IngestPhase::Configuring
            &&& now.session != app.session ==> ev is Opened && run.phase == IngestPhase::Opening
        }),
{
}

} // verus!
