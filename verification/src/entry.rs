//! Deleting a page or a directory of the wiki: quickly, or with an agent that cleans up what
//! linked to it.

use crate::agent::WikiAgent;
#[allow(unused_imports)]
use crate::agent::AgentModel;
use crate::flow::{answer, fail, maybe, Action, ActionOf, Event};
#[allow(unused_imports)]
use crate::flow::{answer_with, fail_with, went_well, Act};
#[allow(unused_imports)]
use crate::history::{
    refuses,
    reports,
    session_found,
    told_answer,
    told_entry,
    told_failure,
    told_marks,
    told_settings,
    told_target,
    turns_away,
    Steps,
};
use crate::paths::{escapes_root, is_within, path_names};
#[allow(unused_imports)]
use crate::paths::{escapes, names, within};
use crate::prompts::delete_cleanup_prompt;
#[allow(unused_imports)]
use crate::prompts::cleanup_text;
use crate::reply::{also, count_field, flag_field, text_field, texts_field, two, Reply};
#[allow(unused_imports)]
use crate::reply::{count_member, flag_member, text_member, texts_member, Answer, Member, ValueOf};
use crate::snapshot::{diff_snapshots, snapshot, FileMark, Snapshot};
#[allow(unused_imports)]
use crate::snapshot::{changed, mark_models, snapshot_of, Mark};
use crate::state::{lock_out, AppState};
#[allow(unused_imports)]
use crate::state::{
    llm_ready,
    locked_out,
    session_dir,
    with_fresh_llm,
    with_session,
    without_session,
    App,
};
use crate::text::{cat, copy_texts, is_blank, replace, same, texts};
#[allow(unused_imports)]
use crate::text::{replaced, trim};
use crate::tree::{count_files, RawEntry, RawKind};
#[allow(unused_imports)]
use crate::tree::file_count;
use vstd::prelude::*;

verus! {

/// How far a deletion has come.
#[derive(Debug, Clone, Copy, PartialEq, Eq, Structural)]
pub enum DeletePhase {
    Start,
    LockingVault,
    LockingSession,
    Resolving,
    Scanning,
    Removing,
    Committing,
    Configuring,
    MarkingBefore,
    Asking,
    MarkingAfter,
    CommittingCleanup,
    Sealing,
    Reopening,
    ClearingChat,
    Finished,
}

/// A deletion that is being worked off.
pub struct DeleteRun {
    pub phase: DeletePhase,
    pub path: String,
    pub mode: String,
    /// The path, with slashes only.
    pub rel: String,
    /// The directory of the session.
    pub work: String,
    /// The real path of what is deleted.
    pub target: String,
    /// That is the wiki's root.
    pub whole: bool,
    /// How many files were removed.
    pub removed: u64,
    /// An agent was wanted, but there is no model to ask.
    pub degraded: bool,
    /// The files before the agent came.
    pub before: Snapshot,
    /// What the agent reported, and the files that it changed.
    pub report: Option<String>,
    pub touched: Vec<String>,
    /// What the request is answered in the end, if the agent failed.
    pub failure: Option<String>,
}

/// The mathematical content of a deletion.
pub struct Deletion {
    pub phase: DeletePhase,
    pub path: Seq<char>,
    pub mode: Seq<char>,
    pub rel: Seq<char>,
    pub work: Seq<char>,
    pub target: Seq<char>,
    pub whole: bool,
    pub removed: u64,
    pub degraded: bool,
    pub before: Seq<Mark>,
    pub report: Option<Seq<char>>,
    pub touched: Seq<Seq<char>>,
    pub failure: Option<Seq<char>>,
}

impl View for DeleteRun {
    type V = Deletion;

    open spec fn view(&self) -> Deletion {
        Deletion {
            phase: self.phase,
            path: self.path@,
            mode: self.mode@,
            rel: self.rel@,
            work: self.work@,
            target: self.target@,
            whole: self.whole,
            removed: self.removed,
            degraded: self.degraded,
            before: self.before@,
            report: maybe(self.report),
            touched: texts(self.touched@),
            failure: maybe(self.failure),
        }
    }
}

/// A deletion that has not begun.
pub open spec fn new_deletion(path: Seq<char>, mode: Seq<char>) -> Deletion {
    Deletion {
        phase: DeletePhase::Start,
        path,
        mode,
        rel: ""@,
        work: ""@,
        target: ""@,
        whole: false,
        removed: 0,
        degraded: false,
        before: snapshot_of(seq![]),
        report: None,
        touched: seq![],
        failure: None,
    }
}

/// The files that a wiki cannot do without: what it is searched by, its protocol and its log.
pub open spec fn is_core_name(name: Seq<char>) -> bool {
    name == "index.md"@ || name == "schema.md"@ || name == "log.md"@
}

/// The path names one of the files that a wiki cannot do without.
pub open spec fn is_core(path: Seq<char>) -> bool {
    names(path).len() == 1 && is_core_name(names(path)[0])
}

/// The path leads to one of the files that a wiki with this root cannot do without.
pub open spec fn is_core_of(root: Seq<char>, target: Seq<char>) -> bool {
    exists|core: Seq<char>|
        is_core_name(core) && names(target) == #[trigger] (names(root) + seq![core])
}

/// The entry is a directory with something of this name in it.
pub open spec fn has_entry(e: RawEntry, name: Seq<char>) -> bool {
    e.kind matches RawKind::Dir(inner) && exists|i: int|
        0 <= i < inner@.len() && (#[trigger] inner@[i]).name@ == name
}

/// The entry is a directory with a core file in it.
pub open spec fn has_core(e: RawEntry) -> bool {
    exists|core: Seq<char>| is_core_name(core) && #[trigger] has_entry(e, core)
}

/// The path is blank, or names something outside of the wiki's root.
pub open spec fn is_illegal(path: Seq<char>) -> bool {
    trim(path).len() == 0 || escapes(path)
}

pub open spec fn illegal_path() -> Seq<char> {
    "非法路径：越出知识库目录"@
}

/// A deletion that goes no further.
pub open spec fn over(run: Deletion, app: App, a: Act) -> (Deletion, App, Act) {
    (Deletion { phase: DeletePhase::Finished, ..run }, app, a)
}

/// Why a path to a core file is turned away.
pub open spec fn core_path(rel: Seq<char>) -> Seq<char> {
    rel + " 是知识库核心文件（index/schema/log），不可删除"@
}

pub open spec fn delete_start(run: Deletion, app: App) -> (Deletion, App, Act) {
    let rel = replaced(run.path, '\\', '/');
    if !app.gateway.unlocked {
        over(run, app, answer_with(locked_out()))
    } else if is_illegal(rel) {
        over(run, app, fail_with(400, illegal_path()))
    } else if is_core(rel) {
        over(run, app, fail_with(400, core_path(rel)))
    } else if run.mode != "quick"@ && run.mode != "smart"@ {
        over(run, app, fail_with(400, "mode 仅支持 quick 或 smart"@))
    } else {
        (Deletion { phase: DeletePhase::LockingVault, rel, ..run }, app, ActionOf::LockVault)
    }
}

pub open spec fn delete_locked(run: Deletion, app: App) -> (Deletion, App, Act) {
    match app.session {
        None => over(run, app, answer_with(locked_out())),
        Some(s) => (
            Deletion { phase: DeletePhase::Resolving, work: s.work_dir, ..run },
            app,
            ActionOf::Resolve { root: s.work_dir, rel: run.rel },
        ),
    }
}

/// Where the path leads, with every link followed, decides: nothing outside the root is removed, and
/// none of the core files in it.
pub open spec fn delete_resolved(
    run: Deletion,
    app: App,
    root: Result<String, String>,
    target: Option<String>,
) -> (Deletion, App, Act) {
    match (root, target) {
        (Err(why), _) => over(run, app, fail_with(500, why@)),
        (Ok(_), None) => over(run, app, fail_with(404, "目标不存在"@)),
        (Ok(root), Some(target)) => if !within(root@, target@) {
            over(run, app, fail_with(400, illegal_path()))
        } else if is_core_of(root@, target@) {
            over(run, app, fail_with(400, core_path(run.rel)))
        } else {
            (
                Deletion {
                    phase: DeletePhase::Scanning,
                    target: target@,
                    whole: names(target@) == names(root@),
                    ..run
                },
                app,
                ActionOf::Scan(target@),
            )
        },
    }
}

/// The number of files, as far as it can be told.
pub open spec fn told_count(e: RawEntry) -> u64 {
    if file_count(e) <= u64::MAX {
        file_count(e) as u64
    } else {
        u64::MAX
    }
}

/// The root goes only where there is no core file in it.
pub open spec fn delete_scanned(run: Deletion, app: App, e: RawEntry) -> (Deletion, App, Act) {
    if run.whole && has_core(e) {
        over(run, app, fail_with(400, core_path(run.rel)))
    } else {
        (
            Deletion { phase: DeletePhase::Removing, removed: told_count(e), ..run },
            app,
            ActionOf::Remove { target: run.target, tree: e.kind is Dir },
        )
    }
}

pub open spec fn delete_removed(run: Deletion, app: App, r: Result<(), String>) -> (
    Deletion,
    App,
    Act,
) {
    match r {
        Err(why) => over(run, app, fail_with(500, "删除失败："@ + why@)),
        Ok(()) => (
            Deletion { phase: DeletePhase::Committing, ..run },
            app,
            ActionOf::Commit { work_dir: run.work, message: "Delete: "@ + run.rel },
        ),
    }
}

/// Seals what was done.
pub open spec fn delete_seal(run: Deletion, app: App) -> (Deletion, App, Act) {
    (Deletion { phase: DeletePhase::Sealing, ..run }, app, ActionOf::Seal(run.work))
}

/// Marks the files before the agent comes.
pub open spec fn delete_mark(run: Deletion, app: App) -> (Deletion, App, Act) {
    (Deletion { phase: DeletePhase::MarkingBefore, ..run }, app, ActionOf::Mark(run.work))
}

pub open spec fn delete_committed(run: Deletion, app: App, r: Result<(), String>) -> (
    Deletion,
    App,
    Act,
) {
    match r {
        Err(why) => over(run, app, fail_with(500, "git 提交失败："@ + why@)),
        Ok(()) => if run.mode != "smart"@ {
            delete_seal(run, app)
        } else if llm_ready(app) {
            delete_mark(run, app)
        } else {
            (
                Deletion { phase: DeletePhase::Configuring, ..run },
                app,
                ActionOf::LoadLlm(app.config_path),
            )
        },
    }
}

/// Without a model the deletion goes on as a quick one, and says so.
pub open spec fn delete_configured(
    run: Deletion,
    app: App,
    file: Option<String>,
    env: crate::llm::LlmEnv,
) -> (Deletion, App, Act) {
    let now = with_fresh_llm(app, file, env);
    if crate::llm::loaded_settings(file, env).api_key.len() > 0 {
        delete_mark(run, now)
    } else {
        delete_seal(Deletion { degraded: true, ..run }, now)
    }
}

/// The agent that works on the session with the current settings.
pub open spec fn agent_for(app: App, work: Seq<char>) -> AgentModel {
    AgentModel { skills_root: app.skills_root, work_dir: work, llm: app.llm, mindrule: None }
}

pub open spec fn delete_marked_before(run: Deletion, app: App, marks: Seq<FileMark>) -> (
    Deletion,
    App,
    Act,
) {
    (
        Deletion {
            phase: DeletePhase::Asking,
            before: snapshot_of(mark_models(marks)),
            ..run
        },
        app,
        ActionOf::Ask {
            agent: agent_for(app, run.work),
            prompt: cleanup_text(run.rel),
            stream: false,
        },
    )
}

pub open spec fn delete_answered(run: Deletion, app: App, r: Result<String, String>) -> (
    Deletion,
    App,
    Act,
) {
    match r {
        Ok(report) => (
            Deletion { phase: DeletePhase::MarkingAfter, report: Some(report@), ..run },
            app,
            ActionOf::Mark(run.work),
        ),
        Err(why) => delete_seal(
            Deletion {
                failure: Some("文件已删除，但 Agent 引用清理失败："@ + why@),
                ..run
            },
            app,
        ),
    }
}

pub open spec fn delete_marked_after(run: Deletion, app: App, marks: Seq<FileMark>) -> (
    Deletion,
    App,
    Act,
) {
    let touched = changed(run.before, snapshot_of(mark_models(marks)));
    let now = Deletion { touched, ..run };
    if touched.len() > 0 {
        (
            Deletion { phase: DeletePhase::CommittingCleanup, ..now },
            app,
            ActionOf::Commit {
                work_dir: run.work,
                message: "Cleanup references after delete: "@ + run.rel,
            },
        )
    } else {
        delete_seal(now, app)
    }
}

pub open spec fn delete_cleaned(run: Deletion, app: App, r: Result<(), String>) -> (
    Deletion,
    App,
    Act,
) {
    match r {
        Err(why) => over(run, app, fail_with(500, "git 提交失败："@ + why@)),
        Ok(()) => delete_seal(run, app),
    }
}

pub open spec fn delete_sealed(run: Deletion, app: App, r: Result<(), String>) -> (
    Deletion,
    App,
    Act,
) {
    match r {
        Err(why) => over(run, app, fail_with(500, "封印失败："@ + why@)),
        Ok(()) => (
            Deletion { phase: DeletePhase::Reopening, ..run },
            without_session(app),
            ActionOf::OpenSession { discard: session_dir(app) },
        ),
    }
}

pub open spec fn delete_reopened(
    run: Deletion,
    app: App,
    r: Result<(String, String), String>,
) -> (Deletion, App, Act) {
    let on = Deletion { phase: DeletePhase::ClearingChat, ..run };
    match r {
        Ok((id, dir)) => (on, with_session(app, id@, dir@), ActionOf::LockChat),
        Err(why) => if run.failure is Some {
            (on, app, ActionOf::LockChat)
        } else {
            over(run, app, fail_with(500, "会话重建失败："@ + why@))
        },
    }
}

/// What a deletion that succeeded is answered.
pub open spec fn deletion_report(run: Deletion) -> Answer {
    let plain = seq![
        flag_member("deleted"@, true),
        count_member("files_removed"@, run.removed),
    ];
    let noted = if run.degraded {
        plain.push(flag_member("degraded"@, true))
    } else {
        plain
    };
    Answer {
        status: 200,
        body: match run.report {
            Some(report) => noted.push(text_member("answer"@, report)).push(
                texts_member("files_touched"@, run.touched),
            ),
            None => noted,
        },
    }
}

pub open spec fn delete_cleared(run: Deletion, app: App) -> (Deletion, App, Act) {
    over(
        run,
        App { chat: false, ..app },
        match run.failure {
            Some(why) => fail_with(500, why),
            None => answer_with(deletion_report(run)),
        },
    )
}

/// What a deletion does next: from how far it has come, the state of the service, and what the
/// last action came to.
pub open spec fn delete_next(run: Deletion, app: App, ev: Event) -> (Deletion, App, Act) {
    match (run.phase, ev) {
        (DeletePhase::Start, Event::Start) => delete_start(run, app),
        (DeletePhase::LockingVault, Event::Ready) => (
            Deletion { phase: DeletePhase::LockingSession, ..run },
            app,
            ActionOf::LockSession,
        ),
        (DeletePhase::LockingSession, Event::Ready) => delete_locked(run, app),
        (DeletePhase::Resolving, Event::Resolved { root, target }) => delete_resolved(
            run,
            app,
            root,
            target,
        ),
        (DeletePhase::Scanning, Event::Scanned(e)) => delete_scanned(run, app, e),
        (DeletePhase::Removing, Event::Done(r)) => delete_removed(run, app, r),
        (DeletePhase::Committing, Event::Done(r)) => delete_committed(run, app, r),
        (DeletePhase::Configuring, Event::Llm { file, env }) => delete_configured(
            run,
            app,
            file,
            env,
        ),
        (DeletePhase::MarkingBefore, Event::Marks(marks)) => delete_marked_before(run, app, marks@),
        (DeletePhase::Asking, Event::Answered { result, sent_error }) => delete_answered(
            run,
            app,
            result,
        ),
        (DeletePhase::MarkingAfter, Event::Marks(marks)) => delete_marked_after(run, app, marks@),
        (DeletePhase::CommittingCleanup, Event::Done(r)) => delete_cleaned(run, app, r),
        (DeletePhase::Sealing, Event::Done(r)) => delete_sealed(run, app, r),
        (DeletePhase::Reopening, Event::Opened(r)) => delete_reopened(run, app, r),
        (DeletePhase::ClearingChat, Event::Ready) => delete_cleared(run, app),
        _ => over(run, app, ActionOf::Misfit),
    }
}

/// The agent that works on a session with the current settings.
pub fn session_agent(app: &AppState, work: &str) -> (a: WikiAgent)
    ensures
        a@ == agent_for(app@, work@),
{
    WikiAgent::with_llm(app.skills_root.as_str(), work, app.llm.clone())
}

fn core_name(name: &str) -> (b: bool)
    ensures
        b == is_core_name(name@),
{
    same(name, "index.md") || same(name, "schema.md") || same(name, "log.md")
}

fn names_core_file(rel: &str) -> (b: bool)
    ensures
        b == is_core(rel@),
{
    let ns = path_names(rel);
    if ns.len() != 1 {
        return false;
    }
    assert(names(rel@)[0] == ns@[0]@);
    core_name(ns[0].as_str())
}

/// `target` lies in `root` and is `root` itself.
fn is_root(root: &str, target: &str) -> (b: bool)
    requires
        within(root@, target@),
    ensures
        b == (names(target@) == names(root@)),
{
    let rs = path_names(root);
    let ts = path_names(target);
    assert(texts(ts@).len() == ts@.len());
    assert(texts(rs@).len() == rs@.len());
    proof {
        if rs@.len() == ts@.len() {
            assert(names(target@).take(names(root@).len() as int) =~= names(target@));
        }
    }
    ts.len() == rs.len()
}

/// `target` lies in `root` and is a core file of it.
fn leads_to_core_file(root: &str, target: &str) -> (b: bool)
    requires
        within(root@, target@),
    ensures
        b == is_core_of(root@, target@),
{
    let rs = path_names(root);
    let ts = path_names(target);
    assert(texts(ts@).len() == ts@.len());
    assert(texts(rs@).len() == rs@.len());
    if ts.len() == 0 || ts.len() - 1 != rs.len() {
        return false;
    }
    let last = ts[ts.len() - 1].as_str();
    proof {
        let t = names(target@);
        let r = names(root@);
        assert(t[t.len() - 1] == last@);
        assert(t =~= t.take(r.len() as int) + seq![last@]);
        assert forall|core: Seq<char>| t == #[trigger] (r + seq![core]) implies core == last@ by {
            assert((r + seq![core])[r.len() as int] == core);
        }
    }
    core_name(last)
}

fn holds_core_file(e: &RawEntry) -> (b: bool)
    ensures
        b == has_core(*e),
{
    match &e.kind {
        RawKind::Dir(inner) => {
            let mut i: usize = 0;
            while i < inner.len()
                invariant
                    i <= inner@.len(),
                    e.kind == RawKind::Dir(*inner),
                    forall|j: int| 0 <= j < i ==> !is_core_name((#[trigger] inner@[j]).name@),
                decreases inner@.len() - i,
            {
                if core_name(inner[i].name.as_str()) {
                    assert(has_entry(*e, inner@[i as int].name@));
                    return true;
                }
                i += 1;
            }
            false
        },
        _ => false,
    }
}

fn is_refused(rel: &str) -> (b: bool)
    ensures
        b == is_illegal(rel@),
{
    is_blank(rel) || escapes_root(rel)
}

impl DeleteRun {
    /// A request to delete `path`, in the mode `quick` or `smart`.
    pub fn new(path: String, mode: String) -> (run: DeleteRun)
        ensures
            run@ == new_deletion(path@, mode@),
    {
        let none: Vec<FileMark> = Vec::new();
        assert(mark_models(none@) =~= seq![]);
        let run = DeleteRun {
            phase: DeletePhase::Start,
            path,
            mode,
            rel: "".to_owned(),
            work: "".to_owned(),
            target: "".to_owned(),
            whole: false,
            removed: 0,
            degraded: false,
            before: snapshot(none),
            report: None,
            touched: Vec::new(),
            failure: None,
        };
        assert(run@.touched =~= seq![]);
        run
    }

    fn end(&mut self, a: Action) -> (r: Action)
        ensures
            final(self)@ == (Deletion { phase: DeletePhase::Finished, ..old(self)@ }),
            r == a,
    {
        self.phase = DeletePhase::Finished;
        a
    }

    fn start(&mut self, app: &AppState) -> (a: Action)
        ensures
            (final(self)@, app@, a@) == delete_start(old(self)@, app@),
    {
        match app.check_gate() {
            Ok(()) => {},
            Err(reply) => {
                return self.end(answer(reply));
            },
        }
        let rel = replace(self.path.as_str(), '\\', '/');
        if is_refused(rel.as_str()) {
            return self.end(fail(400, "非法路径：越出知识库目录".to_owned()));
        }
        if names_core_file(rel.as_str()) {
            return self.end(
                fail(400, cat(rel.as_str(), " 是知识库核心文件（index/schema/log），不可删除")),
            );
        }
        if !same(self.mode.as_str(), "quick") && !same(self.mode.as_str(), "smart") {
            return self.end(fail(400, "mode 仅支持 quick 或 smart".to_owned()));
        }
        self.rel = rel;
        self.phase = DeletePhase::LockingVault;
        ActionOf::LockVault
    }

    fn locked(&mut self, app: &AppState) -> (a: Action)
        ensures
            (final(self)@, app@, a@) == delete_locked(old(self)@, app@),
    {
        match app.session_dir() {
            None => self.end(answer(lock_out())),
            Some(dir) => {
                self.work = dir.clone();
                self.phase = DeletePhase::Resolving;
                ActionOf::Resolve { root: dir, rel: self.rel.clone() }
            },
        }
    }

    fn resolved(
        &mut self,
        app: &AppState,
        root: Result<String, String>,
        target: Option<String>,
    ) -> (a: Action)
        ensures
            (final(self)@, app@, a@) == delete_resolved(old(self)@, app@, root, target),
    {
        let root = match root {
            Ok(r) => r,
            Err(why) => {
                return self.end(fail(500, why));
            },
        };
        let target = match target {
            Some(t) => t,
            None => {
                return self.end(fail(404, "目标不存在".to_owned()));
            },
        };
        if !is_within(root.as_str(), target.as_str()) {
            return self.end(fail(400, "非法路径：越出知识库目录".to_owned()));
        }
        if leads_to_core_file(root.as_str(), target.as_str()) {
            return self.end(
                fail(
                    400,
                    cat(self.rel.as_str(), " 是知识库核心文件（index/schema/log），不可删除"),
                ),
            );
        }
        self.whole = is_root(root.as_str(), target.as_str());
        self.target = target.clone();
        self.phase = DeletePhase::Scanning;
        ActionOf::Scan(target)
    }

    fn scanned(&mut self, app: &AppState, e: RawEntry) -> (a: Action)
        ensures
            (final(self)@, app@, a@) == delete_scanned(old(self)@, app@, e),
    {
        if self.whole && holds_core_file(&e) {
            return self.end(
                fail(
                    400,
                    cat(self.rel.as_str(), " 是知识库核心文件（index/schema/log），不可删除"),
                ),
            );
        }
        self.removed = count_files(&e);
        let tree = match &e.kind {
            RawKind::Dir(_) => true,
            _ => false,
        };
        self.phase = DeletePhase::Removing;
        ActionOf::Remove { target: self.target.clone(), tree }
    }

    fn removed(&mut self, app: &AppState, r: Result<(), String>) -> (a: Action)
        ensures
            (final(self)@, app@, a@) == delete_removed(old(self)@, app@, r),
    {
        match r {
            Err(why) => self.end(fail(500, cat("删除失败：", why.as_str()))),
            Ok(()) => {
                self.phase = DeletePhase::Committing;
                ActionOf::Commit {
                    work_dir: self.work.clone(),
                    message: cat("Delete: ", self.rel.as_str()),
                }
            },
        }
    }

    fn seal(&mut self, app: &AppState) -> (a: Action)
        ensures
            (final(self)@, app@, a@) == delete_seal(old(self)@, app@),
    {
        self.phase = DeletePhase::Sealing;
        ActionOf::Seal(self.work.clone())
    }

    fn mark(&mut self, app: &AppState) -> (a: Action)
        ensures
            (final(self)@, app@, a@) == delete_mark(old(self)@, app@),
    {
        self.phase = DeletePhase::MarkingBefore;
        ActionOf::Mark(self.work.clone())
    }

    fn committed(&mut self, app: &AppState, r: Result<(), String>) -> (a: Action)
        ensures
            (final(self)@, app@, a@) == delete_committed(old(self)@, app@, r),
    {
        match r {
            Err(why) => self.end(fail(500, cat("git 提交失败：", why.as_str()))),
            Ok(()) => {
                if !same(self.mode.as_str(), "smart") {
                    self.seal(app)
                } else if app.llm_ready() {
                    self.mark(app)
                } else {
                    self.phase = DeletePhase::Configuring;
                    ActionOf::LoadLlm(app.config_path.clone())
                }
            },
        }
    }

    fn configured(
        &mut self,
        app: &mut AppState,
        file: Option<String>,
        env: crate::llm::LlmEnv,
    ) -> (a: Action)
        ensures
            (final(self)@, final(app)@, a@) == delete_configured(old(self)@, old(app)@, file, env),
    {
        if app.refresh_llm(&file, &env) {
            self.mark(app)
        } else {
            self.degraded = true;
            self.seal(app)
        }
    }

    fn marked_before(&mut self, app: &AppState, marks: Vec<FileMark>) -> (a: Action)
        ensures
            (final(self)@, app@, a@) == delete_marked_before(old(self)@, app@, marks@),
    {
        self.before = snapshot(marks);
        self.phase = DeletePhase::Asking;
        ActionOf::Ask {
            agent: session_agent(app, self.work.as_str()),
            prompt: delete_cleanup_prompt(self.rel.as_str()),
            stream: false,
        }
    }

    fn answered(&mut self, app: &AppState, r: Result<String, String>) -> (a: Action)
        ensures
            (final(self)@, app@, a@) == delete_answered(old(self)@, app@, r),
    {
        match r {
            Ok(report) => {
                self.report = Some(report);
                self.phase = DeletePhase::MarkingAfter;
                ActionOf::Mark(self.work.clone())
            },
            Err(why) => {
                self.failure =
                Some(cat("文件已删除，但 Agent 引用清理失败：", why.as_str()));
                self.seal(app)
            },
        }
    }

    fn marked_after(&mut self, app: &AppState, marks: Vec<FileMark>) -> (a: Action)
        ensures
            (final(self)@, app@, a@) == delete_marked_after(old(self)@, app@, marks@),
    {
        let after = snapshot(marks);
        self.touched = diff_snapshots(&self.before, &after);
        if self.touched.len() > 0 {
            self.phase = DeletePhase::CommittingCleanup;
            ActionOf::Commit {
                work_dir: self.work.clone(),
                message: cat("Cleanup references after delete: ", self.rel.as_str()),
            }
        } else {
            self.seal(app)
        }
    }

    fn cleaned(&mut self, app: &AppState, r: Result<(), String>) -> (a: Action)
        ensures
            (final(self)@, app@, a@) == delete_cleaned(old(self)@, app@, r),
    {
        match r {
            Err(why) => self.end(fail(500, cat("git 提交失败：", why.as_str()))),
            Ok(()) => self.seal(app),
        }
    }

    fn sealed(&mut self, app: &mut AppState, r: Result<(), String>) -> (a: Action)
        ensures
            (final(self)@, final(app)@, a@) == delete_sealed(old(self)@, old(app)@, r),
    {
        match r {
            Err(why) => self.end(fail(500, cat("封印失败：", why.as_str()))),
            Ok(()) => {
                let discard = app.drop_session();
                self.phase = DeletePhase::Reopening;
                ActionOf::OpenSession { discard }
            },
        }
    }

    fn reopened(&mut self, app: &mut AppState, r: Result<(String, String), String>) -> (a: Action)
        ensures
            (final(self)@, final(app)@, a@) == delete_reopened(old(self)@, old(app)@, r),
    {
        match r {
            Ok((id, dir)) => {
                app.adopt_session(id, dir);
                self.phase = DeletePhase::ClearingChat;
                ActionOf::LockChat
            },
            Err(why) => {
                if self.failure.is_some() {
                    self.phase = DeletePhase::ClearingChat;
                    ActionOf::LockChat
                } else {
                    self.end(fail(500, cat("会话重建失败：", why.as_str())))
                }
            },
        }
    }

    fn report(&self) -> (r: Reply)
        ensures
            r@ == deletion_report(self@),
    {
        let plain = two(flag_field("deleted", true), count_field("files_removed", self.removed));
        let noted = if self.degraded {
            also(plain, flag_field("degraded", true))
        } else {
            plain
        };
        let body = match &self.report {
            Some(report) => also(
                also(noted, text_field("answer", report.clone())),
                texts_field("files_touched", copy_texts(&self.touched)),
            ),
            None => noted,
        };
        Reply { status: 200, body }
    }

    fn cleared(&mut self, app: &mut AppState) -> (a: Action)
        ensures
            (final(self)@, final(app)@, a@) == delete_cleared(old(self)@, old(app)@),
    {
        app.chat = false;
        let a = match &self.failure {
            Some(why) => fail(500, why.clone()),
            None => answer(self.report()),
        };
        self.end(a)
    }

    /// What is to be done next.
    pub fn next(&mut self, app: &mut AppState, ev: Event) -> (a: Action)
        ensures
            (final(self)@, final(app)@, a@) == delete_next(old(self)@, old(app)@, ev),
    {
        match (self.phase, ev) {
            (DeletePhase::Start, Event::Start) => self.start(app),
            (DeletePhase::LockingVault, Event::Ready) => {
                self.phase = DeletePhase::LockingSession;
                ActionOf::LockSession
            },
            (DeletePhase::LockingSession, Event::Ready) => self.locked(app),
            (DeletePhase::Resolving, Event::Resolved { root, target }) => self.resolved(
                app,
                root,
                target,
            ),
            (DeletePhase::Scanning, Event::Scanned(e)) => self.scanned(app, e),
            (DeletePhase::Removing, Event::Done(r)) => self.removed(app, r),
            (DeletePhase::Committing, Event::Done(r)) => self.committed(app, r),
            (DeletePhase::Configuring, Event::Llm { file, env }) => self.configured(app, file, env),
            (DeletePhase::MarkingBefore, Event::Marks(marks)) => self.marked_before(app, marks),
            (DeletePhase::Asking, Event::Answered { result, sent_error: _ }) => self.answered(
                app,
                result,
            ),
            (DeletePhase::MarkingAfter, Event::Marks(marks)) => self.marked_after(app, marks),
            (DeletePhase::CommittingCleanup, Event::Done(r)) => self.cleaned(app, r),
            (DeletePhase::Sealing, Event::Done(r)) => self.sealed(app, r),
            (DeletePhase::Reopening, Event::Opened(r)) => self.reopened(app, r),
            (DeletePhase::ClearingChat, Event::Ready) => self.cleared(app),
            _ => self.end(ActionOf::Misfit),
        }
    }
}

// ---------------------------------------------------------------------------
// Laws
// ---------------------------------------------------------------------------

/// A deletion after some steps, each with the state of the service at that moment, which other
/// requests may have changed, and with what the last action came to.
pub open spec fn delete_after(run: Deletion, steps: Seq<(App, Event)>) -> Deletion
    decreases steps.len(),
{
    if steps.len() == 0 {
        run
    } else {
        let last = steps.last();
        delete_next(delete_after(run, steps.drop_last()), last.0, last.1).0
    }
}

/// What the last of some steps asks for.
pub open spec fn delete_last(run: Deletion, steps: Seq<(App, Event)>) -> Act
    recommends
        steps.len() > 0,
{
    let last = steps.last();
    delete_next(delete_after(run, steps.drop_last()), last.0, last.1).2
}

/// One of the steps was told that what the deletion did in this phase was done.
pub open spec fn did(run: Deletion, steps: Seq<(App, Event)>, phase: DeletePhase) -> bool {
    exists|k: int|
        0 <= k < steps.len() && delete_after(run, #[trigger] steps.take(k)).phase == phase
            && went_well(steps[k].1)
}

proof fn lemma_did_stays(run: Deletion, steps: Seq<(App, Event)>, phase: DeletePhase)
    requires
        steps.len() > 0,
        did(run, steps.drop_last(), phase),
    ensures
        did(run, steps, phase),
{
    let less = steps.drop_last();
    let k = choose|k: int|
        0 <= k < less.len() && delete_after(run, #[trigger] less.take(k)).phase == phase
            && went_well(less[k].1);
    assert(steps.take(k) =~= less.take(k));
    assert(steps[k] == less[k]);
}

proof fn lemma_did_now(run: Deletion, steps: Seq<(App, Event)>, phase: DeletePhase)
    requires
        steps.len() > 0,
        delete_after(run, steps.drop_last()).phase == phase,
        went_well(steps.last().1),
    ensures
        did(run, steps, phase),
{
    let k = steps.len() - 1;
    assert(steps.take(k) =~= steps.drop_last());
}

/// The phases after the removal.
pub open spec fn past_removing(p: DeletePhase) -> bool {
    p == DeletePhase::Committing || past_committing(p)
}

/// The phases after the commit.
pub open spec fn past_committing(p: DeletePhase) -> bool {
    ||| p == DeletePhase::Configuring
    ||| p == DeletePhase::MarkingBefore
    ||| p == DeletePhase::Asking
    ||| p == DeletePhase::MarkingAfter
    ||| p == DeletePhase::CommittingCleanup
    ||| p == DeletePhase::Sealing
    ||| past_sealing(p)
}

/// The phases after the sealing.
pub open spec fn past_sealing(p: DeletePhase) -> bool {
    p == DeletePhase::Reopening || p == DeletePhase::ClearingChat
}

proof fn lemma_phases(run: Deletion, steps: Seq<(App, Event)>)
    requires
        run.phase == DeletePhase::Start,
    ensures
        past_removing(delete_after(run, steps).phase) ==> did(run, steps, DeletePhase::Removing),
        past_committing(delete_after(run, steps).phase) ==> did(
            run,
            steps,
            DeletePhase::Committing,
        ),
        past_sealing(delete_after(run, steps).phase) ==> did(run, steps, DeletePhase::Sealing),
    decreases steps.len(),
{
    if steps.len() > 0 {
        let less = steps.drop_last();
        lemma_phases(run, less);
        let was = delete_after(run, less).phase;
        if did(run, less, DeletePhase::Removing) {
            lemma_did_stays(run, steps, DeletePhase::Removing);
        }
        if did(run, less, DeletePhase::Committing) {
            lemma_did_stays(run, steps, DeletePhase::Committing);
        }
        if did(run, less, DeletePhase::Sealing) {
            lemma_did_stays(run, steps, DeletePhase::Sealing);
        }
        if went_well(steps.last().1) {
            lemma_did_now(run, steps, was);
        }
    }
}

/// A deletion is reported as done only after the files were removed, the removal was committed,
/// and the result was sealed into the container, whatever other requests do meanwhile.
pub proof fn law_deletion_is_sealed_before_it_is_reported(
    path: Seq<char>,
    mode: Seq<char>,
    steps: Seq<(App, Event)>,
)
    requires
        steps.len() > 0,
        delete_last(new_deletion(path, mode), steps) matches ActionOf::Respond { status, body }
            && status == 200,
    ensures
        did(new_deletion(path, mode), steps, DeletePhase::Removing),
        did(new_deletion(path, mode), steps, DeletePhase::Committing),
        did(new_deletion(path, mode), steps, DeletePhase::Sealing),
{
    let run = new_deletion(path, mode);
    let less = steps.drop_last();
    lemma_phases(run, less);
    assert(delete_after(run, less).phase == DeletePhase::ClearingChat);
    lemma_did_stays(run, steps, DeletePhase::Removing);
    lemma_did_stays(run, steps, DeletePhase::Committing);
    lemma_did_stays(run, steps, DeletePhase::Sealing);
}

/// A request to delete is turned away before anything is done while the gateway is closed.
pub proof fn law_deletion_needs_an_open_gate(path: Seq<char>, mode: Seq<char>, app: App)
    requires
        !app.gateway.unlocked,
    ensures
        delete_next(new_deletion(path, mode), app, Event::Start).1 == app,
        delete_next(new_deletion(path, mode), app, Event::Start).2 == answer_with(locked_out()),
{
}

/// Wherever a path leads, by links or without, a deletion never removes a core file: what is let
/// through is no core file, and no directory that one lies in but for the root; and the root is
/// turned away if there is a core file in it.
pub proof fn law_core_files_are_kept(
    run: Deletion,
    app: App,
    root: String,
    target: String,
    later: App,
    e: RawEntry,
    core: Seq<char>,
)
    requires
        is_core_name(core),
        delete_resolved(run, app, Ok(root), Some(target)).2 is Scan,
    ensures
        delete_resolved(run, app, Ok(root), Some(target)).2 == Act::Scan(target@),
        within(target@, crate::paths::under(root@, core)) ==> names(target@) == names(root@),
        ({
            let looking = delete_resolved(run, app, Ok(root), Some(target)).0;
            let (_, now, a) = delete_next(looking, later, Event::Scanned(e));
            &&& now == later
            &&& within(target@, crate::paths::under(root@, core)) && has_entry(e, core) ==> a
                == fail_with(400, core_path(run.rel))
            &&& a is Remove ==> a == Act::Remove { target: target@, tree: e.kind is Dir }
        }),
{
    let below = crate::paths::under(root@, core);
    lemma_core_is_a_name(core);
    crate::paths::law_safe_paths_stay_inside(root@, core);
    assert(names(below) == names(root@) + seq![core]);
    if within(target@, below) {
        let t = names(target@);
        let r = names(root@);
        assert(names(below).take(t.len() as int) == t);
        if t.len() == r.len() {
            assert(t.take(r.len() as int) =~= t);
        } else {
            assert(names(below).take(t.len() as int) =~= names(below));
        }
    }
}

/// Nothing is removed but what was looked at just before.
pub proof fn law_only_what_was_looked_at_is_removed(run: Deletion, app: App, ev: Event)
    requires
        delete_next(run, app, ev).2 is Remove,
    ensures
        run.phase == DeletePhase::Scanning,
        ev matches Event::Scanned(e) && delete_next(run, app, ev).2 == (Act::Remove {
            target: run.target,
            tree: e.kind is Dir,
        }) && !(run.whole && has_core(e)),
{
}

proof fn lemma_core_is_a_name(core: Seq<char>)
    requires
        is_core_name(core),
    ensures
        names(core) == seq![core],
        !escapes(core),
{
    reveal_strlit(".");
    reveal_strlit("..");
    reveal_strlit("index.md");
    reveal_strlit("schema.md");
    reveal_strlit("log.md");
    assert("."@.len() == 1);
    assert(".."@.len() == 2);
    assert("index.md"@.len() == 8);
    assert("schema.md"@.len() == 9);
    assert("log.md"@.len() == 6);
    crate::paths::lemma_plain_name(core);
}

/// A deletion reports that it went on without an agent exactly if one was wanted, no model was
/// set, and none was found on looking for the settings once more.
pub proof fn law_degraded_only_without_model(run: Deletion, app: App, ev: Event)
    ensures
        delete_next(run, app, ev).0.degraded <==> run.degraded || (run.phase
            == DeletePhase::Configuring && (ev matches Event::Llm { file, env }
            && crate::llm::loaded_settings(file, env).api_key.len() == 0)),
        delete_next(run, app, ev).0.phase == DeletePhase::Configuring ==> run.mode == "smart"@
            && !llm_ready(app),
        deletion_report(run).body.contains(flag_member("degraded"@, true)) <==> run.degraded,
{
    reveal_strlit("degraded");
    reveal_strlit("deleted");
    assert("degraded"@.len() == 8);
    assert("deleted"@.len() == 7);
    let body = deletion_report(run).body;
    if run.degraded {
        assert(body[2] == flag_member("degraded"@, true));
    }
}

/// The phases of a deletion in their order.
spec fn place(p: DeletePhase) -> int {
    match p {
        DeletePhase::Start => 0,
        DeletePhase::LockingVault => 1,
        DeletePhase::LockingSession => 2,
        DeletePhase::Resolving => 3,
        DeletePhase::Scanning => 4,
        DeletePhase::Removing => 5,
        DeletePhase::Committing => 6,
        DeletePhase::Configuring => 7,
        DeletePhase::MarkingBefore => 8,
        DeletePhase::Asking => 9,
        DeletePhase::MarkingAfter => 10,
        DeletePhase::CommittingCleanup => 11,
        DeletePhase::Sealing => 12,
        DeletePhase::Reopening => 13,
        DeletePhase::ClearingChat => 14,
        DeletePhase::Finished => 15,
    }
}

/// What a deletion holds is what it was asked for and what it was told.
spec fn knows(path: Seq<char>, mode: Seq<char>, steps: Steps) -> bool {
    let run = delete_after(new_deletion(path, mode), steps);
    let at = place(run.phase);
    &&& run.path == path
    &&& run.mode == mode
    &&& at == 0 ==> steps.len() == 0
    &&& 1 <= at <= 14 ==> run.rel == replaced(path, '\\', '/')
    &&& 3 <= at <= 12 ==> Some(run.work) == session_found(steps)
    &&& 4 <= at <= 14 ==> Some(run.target) == told_target(steps)
    &&& 5 <= at <= 14 ==> told_entry(steps) is Some && run.removed == told_count(
        told_entry(steps)->0,
    )
    &&& 0 <= at <= 7 ==> told_settings(steps) is None
    &&& 8 <= at <= 11 ==> (told_settings(steps) matches Some(llm) ==> llm.api_key.len() > 0)
    &&& 0 <= at <= 14 ==> (run.degraded <==> (told_settings(steps) matches Some(llm)
        && llm.api_key.len() == 0))
    &&& 7 <= at <= 11 ==> mode == "smart"@
    &&& 0 <= at <= 8 ==> told_marks(steps) == Seq::<Seq<Mark>>::empty()
    &&& 9 <= at <= 10 ==> told_marks(steps).len() == 1 && run.before == snapshot_of(
        told_marks(steps)[0],
    )
    &&& 0 <= at <= 9 ==> told_answer(steps) is None && told_failure(steps) is None
    &&& 0 <= at <= 14 ==> run.report == told_answer(steps)
    &&& 10 <= at <= 11 ==> run.report is Some && told_failure(steps) is None
    &&& 11 <= at <= 14 && run.report is Some ==> told_marks(steps).len() == 2 && run.touched
        == changed(snapshot_of(told_marks(steps)[0]), snapshot_of(told_marks(steps)[1]))
    &&& 0 <= at <= 14 ==> run.failure == (match told_failure(steps) {
        Some(why) => Some("文件已删除，但 Agent 引用清理失败："@ + why),
        None => None,
    })
    &&& 12 <= at <= 14 ==> !(run.report is Some && run.failure is Some)
}

#[verifier::spinoff_prover]
#[verifier::rlimit(60)]
proof fn lemma_knows(path: Seq<char>, mode: Seq<char>, steps: Steps)
    ensures
        knows(path, mode, steps),
    decreases steps.len(),
{
    if steps.len() > 0 {
        lemma_knows(path, mode, steps.drop_last());
    }
}

/// What a deletion does, at every step of every run, is done to what its path names in the session
/// that it found, and to nothing else: it asks where the path, with slashes only, leads from the
/// directory of the session; it looks at what that comes to, and removes what it looked at; it
/// commits, marks and seals in that directory, and puts the agent to work there, with the current
/// settings.
pub proof fn law_deletion_keeps_to_its_path(path: Seq<char>, mode: Seq<char>, steps: Steps)
    requires
        steps.len() > 0,
    ensures
        match delete_last(new_deletion(path, mode), steps) {
            ActionOf::Resolve { root, rel } => Some(root) == session_found(steps) && rel
                == replaced(path, '\\', '/'),
            ActionOf::Scan(target) => (steps.last().1 matches Event::Resolved {
                root: Ok(root),
                target: Some(found),
            } && found@ == target && within(root@, target)) && delete_last(
                new_deletion(path, mode),
                steps.drop_last(),
            ) is Resolve,
            ActionOf::Remove { target, tree } => (steps.last().1 matches Event::Scanned(e) && (tree
                <==> e.kind is Dir)) && Some(target) == told_target(steps) && delete_last(
                new_deletion(path, mode),
                steps.drop_last(),
            ) == Act::Scan(target),
            ActionOf::Commit { work_dir, message } => Some(work_dir) == session_found(steps)
                && message == (if steps.last().1 is Marks {
                "Cleanup references after delete: "@
            } else {
                "Delete: "@
            }) + replaced(path, '\\', '/'),
            ActionOf::Mark(dir) => Some(dir) == session_found(steps) && mode == "smart"@,
            ActionOf::Ask { agent, prompt, stream } => Some(agent.work_dir) == session_found(steps)
                && agent.skills_root == steps.last().0.skills_root && agent.llm
                == steps.last().0.llm && agent.mindrule is None && prompt == cleanup_text(
                replaced(path, '\\', '/'),
            ) && !stream && mode == "smart"@,
            ActionOf::Seal(dir) => Some(dir) == session_found(steps),
            ActionOf::OpenSession { discard } => discard == session_dir(steps.last().0),
            _ => true,
        },
{
    let less = steps.drop_last();
    lemma_knows(path, mode, less);
    if less.len() > 0 {
        lemma_knows(path, mode, less.drop_last());
    }
}

/// What a deletion that succeeded is answered, in every run: how many files there were at the path,
/// whether it went on without an agent for want of a model, and, if an agent came, what it
/// answered and which files changed while it was there. If the agent failed, the answer says so.
pub proof fn law_deletion_reports_what_it_was_told(
    path: Seq<char>,
    mode: Seq<char>,
    steps: Steps,
)
    requires
        steps.len() > 0,
        delete_after(new_deletion(path, mode), steps.drop_last()).phase
            == DeletePhase::ClearingChat,
        steps.last().1 is Ready,
    ensures
        told_entry(steps) is Some,
        match told_failure(steps) {
            Some(why) => refuses(
                delete_last(new_deletion(path, mode), steps),
                500,
                "文件已删除，但 Agent 引用清理失败："@ + why,
            ),
            None => reports(
                delete_last(new_deletion(path, mode), steps),
                seq![
                    Member { key: "deleted"@, value: ValueOf::Flag(true) },
                    Member {
                        key: "files_removed"@,
                        value: ValueOf::Count(
                            if file_count(told_entry(steps)->0) <= u64::MAX {
                                file_count(told_entry(steps)->0) as u64
                            } else {
                                u64::MAX
                            },
                        ),
                    },
                ] + (if told_settings(steps) matches Some(llm) && llm.api_key.len() == 0 {
                    seq![Member { key: "degraded"@, value: ValueOf::Flag(true) }]
                } else {
                    seq![]
                }) + (match told_answer(steps) {
                    Some(text) => seq![
                        Member { key: "answer"@, value: ValueOf::Text(text) },
                        Member {
                            key: "files_touched"@,
                            value: ValueOf::Texts(
                                changed(
                                    snapshot_of(told_marks(steps)[0]),
                                    snapshot_of(told_marks(steps)[1]),
                                ),
                            ),
                        },
                    ],
                    None => seq![],
                }),
            ),
        },
        told_answer(steps) is Some ==> told_marks(steps).len() == 2,
        !delete_next(
            delete_after(new_deletion(path, mode), steps.drop_last()),
            steps.last().0,
            steps.last().1,
        ).1.chat,
{
    let less = steps.drop_last();
    lemma_knows(path, mode, less);
    let run = delete_after(new_deletion(path, mode), less);
    let n = run.removed;
    let body = seq![
        Member { key: "deleted"@, value: ValueOf::Flag(true) },
        Member { key: "files_removed"@, value: ValueOf::Count(n) },
    ] + (if told_settings(steps) matches Some(llm) && llm.api_key.len() == 0 {
        seq![Member { key: "degraded"@, value: ValueOf::Flag(true) }]
    } else {
        seq![]
    }) + (match told_answer(steps) {
        Some(text) => seq![
            Member { key: "answer"@, value: ValueOf::Text(text) },
            Member {
                key: "files_touched"@,
                value: ValueOf::Texts(
                    changed(
                        snapshot_of(told_marks(steps)[0]),
                        snapshot_of(told_marks(steps)[1]),
                    ),
                ),
            },
        ],
        None => seq![],
    });
    if told_failure(steps) is None {
        assert(deletion_report(run).body =~= body);
        assert(reports(delete_last(new_deletion(path, mode), steps), body));
    }
}

/// The path is one of the three files that a wiki cannot do without, or leads to one of them.
pub open spec fn names_core(ns: Seq<Seq<char>>, root: Seq<Seq<char>>) -> bool {
    ns == root + seq!["index.md"@] || ns == root + seq!["schema.md"@] || ns == root + seq![
        "log.md"@,
    ]
}

/// Which requests to delete are turned away before anything is done, and why; all others go on.
pub proof fn law_deletion_is_refused_for_a_reason(path: Seq<char>, mode: Seq<char>, app: App)
    ensures
        ({
            let rel = replaced(path, '\\', '/');
            let (_, now, a) = delete_next(new_deletion(path, mode), app, Event::Start);
            let core = names(rel) == seq!["index.md"@] || names(rel) == seq!["schema.md"@] || names(
                rel,
            ) == seq!["log.md"@];
            &&& now == app
            &&& !app.gateway.unlocked ==> turns_away(a)
            &&& app.gateway.unlocked && (trim(rel).len() == 0 || escapes(rel)) ==> refuses(
                a,
                400,
                "非法路径：越出知识库目录"@,
            )
            &&& app.gateway.unlocked && trim(rel).len() > 0 && !escapes(rel) && core ==> refuses(
                a,
                400,
                rel + " 是知识库核心文件（index/schema/log），不可删除"@,
            )
            &&& app.gateway.unlocked && trim(rel).len() > 0 && !escapes(rel) && !core && mode
                != "quick"@ && mode != "smart"@ ==> refuses(a, 400, "mode 仅支持 quick 或 smart"@)
            &&& app.gateway.unlocked && trim(rel).len() > 0 && !escapes(rel) && !core && (mode
                == "quick"@ || mode == "smart"@) ==> a == Act::LockVault
        }),
{
    let ns = names(replaced(path, '\\', '/'));
    if ns.len() == 1 {
        assert(ns =~= seq![ns[0]]);
    }
    assert(seq!["index.md"@][0] == "index.md"@);
    assert(seq!["schema.md"@][0] == "schema.md"@);
    assert(seq!["log.md"@][0] == "log.md"@);
}

/// What a deletion is answered when something goes wrong on its way, at the step where it does.
pub proof fn law_deletion_says_what_went_wrong(
    run: Deletion,
    app: App,
    root: String,
    target: String,
    why: String,
)
    ensures
        run.phase == DeletePhase::LockingSession && app.session is None ==> turns_away(
            delete_next(run, app, Event::Ready).2,
        ),
        run.phase == DeletePhase::Resolving ==> ({
            let bad = delete_next(
                run,
                app,
                Event::Resolved { root: Err(why), target: Some(target) },
            ).2;
            let none = delete_next(run, app, Event::Resolved { root: Ok(root), target: None }).2;
            let a = delete_next(
                run,
                app,
                Event::Resolved { root: Ok(root), target: Some(target) },
            ).2;
            &&& refuses(bad, 500, why@)
            &&& refuses(none, 404, "目标不存在"@)
            &&& !within(root@, target@) ==> refuses(a, 400, "非法路径：越出知识库目录"@)
            &&& within(root@, target@) && names_core(names(target@), names(root@)) ==> refuses(
                a,
                400,
                run.rel + " 是知识库核心文件（index/schema/log），不可删除"@,
            )
            &&& within(root@, target@) && !names_core(names(target@), names(root@)) ==> a
                == Act::Scan(target@) && (delete_next(
                run,
                app,
                Event::Resolved { root: Ok(root), target: Some(target) },
            ).0.whole <==> names(target@) == names(root@))
        }),
        run.phase == DeletePhase::Removing ==> refuses(
            delete_next(run, app, Event::Done(Err(why))).2,
            500,
            "删除失败："@ + why@,
        ),
        run.phase == DeletePhase::Committing || run.phase == DeletePhase::CommittingCleanup
            ==> refuses(
            delete_next(run, app, Event::Done(Err(why))).2,
            500,
            "git 提交失败："@ + why@,
        ),
        run.phase == DeletePhase::Sealing ==> refuses(
            delete_next(run, app, Event::Done(Err(why))).2,
            500,
            "封印失败："@ + why@,
        ),
        run.phase == DeletePhase::Reopening && run.failure is None ==> refuses(
            delete_next(run, app, Event::Opened(Err(why))).2,
            500,
            "会话重建失败："@ + why@,
        ),
{
    let r = names(root@);
    let t = names(target@);
    if is_core_of(root@, target@) {
        let core = choose|core: Seq<char>| is_core_name(core) && t == #[trigger] (r + seq![core]);
        assert(names_core(t, r));
    }
    if t == r + seq!["index.md"@] {
        assert(is_core_name("index.md"@));
    }
    if t == r + seq!["schema.md"@] {
        assert(is_core_name("schema.md"@));
    }
    if t == r + seq!["log.md"@] {
        assert(is_core_name("log.md"@));
    }
}

/// The three files that a wiki cannot do without, each of which keeps the root that it lies in.
pub proof fn law_a_core_file_keeps_the_root(run: Deletion, app: App, e: RawEntry)
    requires
        run.phase == DeletePhase::Scanning,
    ensures
        ({
            let core = has_entry(e, "index.md"@) || has_entry(e, "schema.md"@) || has_entry(
                e,
                "log.md"@,
            );
            let a = delete_next(run, app, Event::Scanned(e)).2;
            &&& run.whole && core ==> refuses(
                a,
                400,
                run.rel + " 是知识库核心文件（index/schema/log），不可删除"@,
            )
            &&& !(run.whole && core) ==> a == Act::Remove {
                target: run.target,
                tree: e.kind is Dir,
            }
        }),
{
    if has_entry(e, "index.md"@) {
        assert(is_core_name("index.md"@));
    }
    if has_entry(e, "schema.md"@) {
        assert(is_core_name("schema.md"@));
    }
    if has_entry(e, "log.md"@) {
        assert(is_core_name("log.md"@));
    }
}

/// A deletion goes on from step to step as long as nothing goes wrong: what is asked for after each
/// step, from the removal to the answer. An agent is asked only where that is wanted and there is
/// a model, and its changes are committed before they are sealed.
pub proof fn law_deletion_goes_on(run: Deletion, app: App, ev: Event)
    ensures
        run.phase == DeletePhase::LockingVault && ev is Ready ==> delete_next(run, app, ev).2
            == Act::LockSession && delete_next(run, app, ev).0.phase
            == DeletePhase::LockingSession,
        run.phase == DeletePhase::LockingSession && ev is Ready && app.session is Some
            ==> delete_next(run, app, ev).2 is Resolve && delete_next(run, app, ev).0.phase
            == DeletePhase::Resolving,
        run.phase == DeletePhase::Removing && went_well(ev) ==> delete_next(run, app, ev).2
            is Commit && delete_next(run, app, ev).0.phase == DeletePhase::Committing,
        run.phase == DeletePhase::Committing && went_well(ev) ==> ({
            let (now, _, a) = delete_next(run, app, ev);
            &&& run.mode != "smart"@ ==> a is Seal && now.phase == DeletePhase::Sealing
            &&& run.mode == "smart"@ && app.llm.api_key.len() > 0 ==> a is Mark && now.phase
                == DeletePhase::MarkingBefore
            &&& run.mode == "smart"@ && app.llm.api_key.len() == 0 ==> a == Act::LoadLlm(
                app.config_path,
            ) && now.phase == DeletePhase::Configuring
        }),
        run.phase == DeletePhase::Configuring ==> (ev matches Event::Llm { file, env } ==> ({
            let llm = crate::llm::loaded_settings(file, env);
            let (now, after, a) = delete_next(run, app, ev);
            &&& llm.api_key.len() > 0 ==> after == (App { llm, ..app }) && a is Mark && now.phase
                == DeletePhase::MarkingBefore
            &&& llm.api_key.len() == 0 ==> after == app && a is Seal && now.phase
                == DeletePhase::Sealing
        })),
        run.phase == DeletePhase::MarkingBefore && ev is Marks ==> delete_next(run, app, ev).2 is Ask
            && delete_next(run, app, ev).0.phase == DeletePhase::Asking,
        run.phase == DeletePhase::Asking ==> (ev matches Event::Answered { result, sent_error } ==> ({
            let (now, _, a) = delete_next(run, app, ev);
            &&& result is Ok ==> a is Mark && now.phase == DeletePhase::MarkingAfter
            &&& result is Err ==> a is Seal && now.phase == DeletePhase::Sealing
        })),
        run.phase == DeletePhase::MarkingAfter ==> (ev matches Event::Marks(marks) ==> ({
            let (now, _, a) = delete_next(run, app, ev);
            let files = changed(run.before, snapshot_of(mark_models(marks@)));
            &&& files.len() > 0 ==> a is Commit && now.phase == DeletePhase::CommittingCleanup
            &&& files.len() == 0 ==> a is Seal && now.phase == DeletePhase::Sealing
        })),
        run.phase == DeletePhase::CommittingCleanup && went_well(ev) ==> delete_next(
            run,
            app,
            ev,
        ).2 is Seal && delete_next(run, app, ev).0.phase == DeletePhase::Sealing,
        run.phase == DeletePhase::Sealing && went_well(ev) ==> delete_next(run, app, ev).2
            is OpenSession && delete_next(run, app, ev).0.phase == DeletePhase::Reopening,
        run.phase == DeletePhase::Reopening ==> (ev matches Event::Opened(Ok((id, dir))) ==> ({
            let (now, after, a) = delete_next(run, app, ev);
            &&& a == Act::LockChat
            &&& now.phase == DeletePhase::ClearingChat
            &&& after.session matches Some(s) && s.id == id@ && s.work_dir == dir@ && !s.terminate
            &&& after.gateway.sessions == app.gateway.sessions.insert(id@, dir@)
        })),
{
}

/// A deletion changes nothing in the state but the session, its entry with the gateway, the chat,
/// and settings that it had to look for.
pub proof fn law_deletion_leaves_the_rest(run: Deletion, app: App, ev: Event)
    ensures
        ({
            let now = delete_next(run, app, ev).1;
            &&& now.root == app.root
            &&& now.admin_token == app.admin_token
            &&& now.skills_root == app.skills_root
            &&& now.config_path == app.config_path
            &&& now.gateway.salt == app.gateway.salt
            &&& now.gateway.token == app.gateway.token
            &&& now.gateway.closed_at == app.gateway.closed_at
            &&& now.llm != app.llm ==> ev is Llm && run.phase == DeletePhase::Configuring
            &&& now.chat != app.chat ==> !now.chat && run.phase == DeletePhase::ClearingChat
            &&& now.session != app.session ==> went_well(ev) && run.phase == DeletePhase::Sealing
                && now.session is None || run.phase == DeletePhase::Reopening
        }),
{
}

/// Something lies in a directory if it stands in the directory's listing, whichever place it has there.
pub proof fn law_entries_are_found_by_name(e: RawEntry, name: Seq<char>)
    ensures
        match e.kind {
            RawKind::Dir(inner) => has_entry(e, name) <==> inner@.map_values(
                |x: RawEntry| x.name@,
            ).contains(name),
            _ => !has_entry(e, name),
        },
{
    if let RawKind::Dir(inner) = e.kind {
        let listed = inner@.map_values(|x: RawEntry| x.name@);
        if has_entry(e, name) {
            let i = choose|i: int| 0 <= i < inner@.len() && (#[trigger] inner@[i]).name@ == name;
            assert(listed[i] == name);
        }
        if listed.contains(name) {
            let i = choose|i: int| 0 <= i < listed.len() && listed[i] == name;
            assert(inner@[i].name@ == name);
        }
    }
}

} // verus!
