//! Importing a bundle of pages: the request that an archive is uploaded with.

use crate::flow::{answer, fail, Action, ActionOf, Event};
#[allow(unused_imports)]
use crate::flow::{answer_with, fail_with, went_well, Act};
#[allow(unused_imports)]
use crate::history::{refuses, reports, session_found, told_data, told_file, turns_away, Steps};
use crate::import::{plan_import, ImportPlan, ImportStepOf};
#[allow(unused_imports)]
use crate::import::{
    empty_plan,
    plan_for,
    plan_of,
    step_models,
    zip_contents,
    ImportStepModel,
    Plan,
    ZipItem,
};
use crate::reply::{flag_field, texts_field, three, Reply};
#[allow(unused_imports)]
use crate::reply::{flag_member, texts_member, Answer, Member, ValueOf};
use crate::state::{lock_out, AppState};
#[allow(unused_imports)]
use crate::state::{locked_out, session_dir, with_session, without_session, App};
use crate::text::{cat, cat3, copy_texts, number};
#[allow(unused_imports)]
use crate::text::decimal;
use vstd::prelude::*;

verus! {

/// How far an import has come.
#[derive(Debug, Clone, Copy, PartialEq, Eq, Structural)]
pub enum ImportPhase {
    Start,
    Uploading,
    LockingVault,
    LockingSession,
    Writing,
    Committing,
    Sealing,
    Reopening,
    ClearingChat,
    Finished,
}

/// An import that is being worked off.
pub struct ImportRun {
    pub phase: ImportPhase,
    /// The archive.
    pub data: Vec<u8>,
    /// The directory of the session.
    pub work: String,
    /// What is still to be done, and what it comes to.
    pub plan: ImportPlan,
    /// The step that is being taken may fail.
    pub lenient: bool,
}

/// The mathematical content of an import.
pub struct Importing {
    pub phase: ImportPhase,
    pub data: Seq<u8>,
    pub work: Seq<char>,
    pub plan: Plan,
    pub lenient: bool,
}

impl View for ImportRun {
    type V = Importing;

    open spec fn view(&self) -> Importing {
        Importing {
            phase: self.phase,
            data: self.data@,
            work: self.work@,
            plan: self.plan@,
            lenient: self.lenient,
        }
    }
}

/// An import that has not begun.
pub open spec fn new_import() -> Importing {
    Importing {
        phase: ImportPhase::Start,
        data: seq![],
        work: ""@,
        plan: empty_plan(),
        lenient: false,
    }
}

/// An import that goes no further.
pub open spec fn over(run: Importing, app: App, a: Act) -> (Importing, App, Act) {
    (Importing { phase: ImportPhase::Finished, ..run }, app, a)
}

pub open spec fn import_start(run: Importing, app: App) -> (Importing, App, Act) {
    if app.gateway.unlocked {
        (Importing { phase: ImportPhase::Uploading, ..run }, app, ActionOf::Upload)
    } else {
        over(run, app, answer_with(locked_out()))
    }
}

pub open spec fn import_uploaded(
    run: Importing,
    app: App,
    r: Result<(String, Vec<u8>), Reply>,
) -> (Importing, App, Act) {
    match r {
        Err(reply) => over(run, app, answer_with(reply@)),
        Ok((_, data)) => (
            Importing { phase: ImportPhase::LockingVault, data: data@, ..run },
            app,
            ActionOf::LockVault,
        ),
    }
}

pub open spec fn commit_message(run: Importing) -> Seq<char> {
    "Import wiki bundle: "@ + decimal(run.plan.imported.len()) + " files"@
}

/// Takes the next step of the plan. After the last one the import fails, if the archive was
/// refused, or is committed.
pub open spec fn import_go(run: Importing, app: App) -> (Importing, App, Act) {
    if run.plan.steps.len() > 0 {
        let step = run.plan.steps[0];
        (
            Importing {
                phase: ImportPhase::Writing,
                plan: Plan { steps: run.plan.steps.skip(1), ..run.plan },
                lenient: step is MakeParent,
                ..run
            },
            app,
            ActionOf::Import(step),
        )
    } else {
        match run.plan.failure {
            Some(why) => over(run, app, fail_with(400, why)),
            None => (
                Importing { phase: ImportPhase::Committing, ..run },
                app,
                ActionOf::Commit { work_dir: run.work, message: commit_message(run) },
            ),
        }
    }
}

pub open spec fn import_locked(run: Importing, app: App) -> (Importing, App, Act) {
    match app.session {
        None => over(run, app, answer_with(locked_out())),
        Some(s) => import_go(
            Importing { data: seq![], work: s.work_dir, plan: plan_for(s.work_dir, run.data), ..run },
            app,
        ),
    }
}

pub open spec fn import_written(run: Importing, app: App, r: Result<(), String>) -> (
    Importing,
    App,
    Act,
) {
    match r {
        Err(why) => if run.lenient {
            import_go(run, app)
        } else {
            over(run, app, fail_with(500, why@))
        },
        Ok(()) => import_go(run, app),
    }
}

pub open spec fn import_committed(run: Importing, app: App, r: Result<(), String>) -> (
    Importing,
    App,
    Act,
) {
    match r {
        Err(why) => over(run, app, fail_with(500, "git 提交失败："@ + why@)),
        Ok(()) => (
            Importing { phase: ImportPhase::Sealing, ..run },
            app,
            ActionOf::Seal(run.work),
        ),
    }
}

pub open spec fn import_sealed(run: Importing, app: App, r: Result<(), String>) -> (
    Importing,
    App,
    Act,
) {
    match r {
        Err(why) => over(run, app, fail_with(500, "封印失败："@ + why@)),
        Ok(()) => (
            Importing { phase: ImportPhase::Reopening, ..run },
            without_session(app),
            ActionOf::OpenSession { discard: session_dir(app) },
        ),
    }
}

pub open spec fn import_reopened(
    run: Importing,
    app: App,
    r: Result<(String, String), String>,
) -> (Importing, App, Act) {
    match r {
        Ok((id, dir)) => (
            Importing { phase: ImportPhase::ClearingChat, ..run },
            with_session(app, id@, dir@),
            ActionOf::LockChat,
        ),
        Err(why) => over(run, app, fail_with(500, "会话重建失败："@ + why@)),
    }
}

/// What an import that succeeded is answered.
pub open spec fn import_report(run: Importing) -> Answer {
    Answer {
        status: 200,
        body: seq![
            texts_member("imported"@, run.plan.imported),
            texts_member("skipped"@, run.plan.skipped),
            flag_member("committed"@, true),
        ],
    }
}

/// What an import does next.
pub open spec fn import_next(run: Importing, app: App, ev: Event) -> (Importing, App, Act) {
    match (run.phase, ev) {
        (ImportPhase::Start, Event::Start) => import_start(run, app),
        (ImportPhase::Uploading, Event::Uploaded(r)) => import_uploaded(run, app, r),
        (ImportPhase::LockingVault, Event::Ready) => (
            Importing { phase: ImportPhase::LockingSession, ..run },
            app,
            ActionOf::LockSession,
        ),
        (ImportPhase::LockingSession, Event::Ready) => import_locked(run, app),
        (ImportPhase::Writing, Event::Done(r)) => import_written(run, app, r),
        (ImportPhase::Committing, Event::Done(r)) => import_committed(run, app, r),
        (ImportPhase::Sealing, Event::Done(r)) => import_sealed(run, app, r),
        (ImportPhase::Reopening, Event::Opened(r)) => import_reopened(run, app, r),
        (ImportPhase::ClearingChat, Event::Ready) => over(
            run,
            App { chat: false, ..app },
            answer_with(import_report(run)),
        ),
        _ => over(run, app, ActionOf::Misfit),
    }
}

impl ImportRun {
    pub fn new() -> (run: ImportRun)
        ensures
            run@ == new_import(),
    {
        let data: Vec<u8> = Vec::new();
        let run = ImportRun {
            phase: ImportPhase::Start,
            data,
            work: "".to_owned(),
            plan: ImportPlan::new(),
            lenient: false,
        };
        assert(run@.data =~= seq![]);
        run
    }

    fn end(&mut self, a: Action) -> (r: Action)
        ensures
            final(self)@ == (Importing { phase: ImportPhase::Finished, ..old(self)@ }),
            r == a,
    {
        self.phase = ImportPhase::Finished;
        a
    }

    fn go(&mut self, app: &AppState) -> (a: Action)
        ensures
            (final(self)@, app@, a@) == import_go(old(self)@, app@),
    {
        let ghost before = self@;
        if self.plan.steps.len() > 0 {
            let ghost steps = self.plan.steps@;
            let step = self.plan.steps.remove(0);
            assert(step_models(self.plan.steps@) =~= step_models(steps).skip(1));
            assert(step@ == step_models(steps)[0]);
            self.lenient = match &step {
                ImportStepOf::MakeParent(_) => true,
                _ => false,
            };
            self.phase = ImportPhase::Writing;
            ActionOf::Import(step)
        } else {
            match &self.plan.failure {
                Some(why) => {
                    let a = fail(400, why.clone());
                    self.end(a)
                },
                None => {
                    let n = number(self.plan.imported.len() as u128);
                    self.phase = ImportPhase::Committing;
                    ActionOf::Commit {
                        work_dir: self.work.clone(),
                        message: cat3("Import wiki bundle: ", n.as_str(), " files"),
                    }
                },
            }
        }
    }

    fn locked(&mut self, app: &AppState) -> (a: Action)
        ensures
            (final(self)@, app@, a@) == import_locked(old(self)@, app@),
    {
        match app.session_dir() {
            None => self.end(answer(lock_out())),
            Some(dir) => {
                let mut data: Vec<u8> = Vec::new();
                std::mem::swap(&mut data, &mut self.data);
                assert(self.data@ =~= seq![]);
                self.plan = plan_import(dir.as_str(), data);
                self.work = dir;
                self.go(app)
            },
        }
    }

    fn report(&self) -> (r: Reply)
        ensures
            r@ == import_report(self@),
    {
        Reply {
            status: 200,
            body: three(
                texts_field("imported", copy_texts(&self.plan.imported)),
                texts_field("skipped", copy_texts(&self.plan.skipped)),
                flag_field("committed", true),
            ),
        }
    }

    /// What is to be done next.
    pub fn next(&mut self, app: &mut AppState, ev: Event) -> (a: Action)
        ensures
            (final(self)@, final(app)@, a@) == import_next(old(self)@, old(app)@, ev),
    {
        match (self.phase, ev) {
            (ImportPhase::Start, Event::Start) => {
                match app.check_gate() {
                    Ok(()) => {
                        self.phase = ImportPhase::Uploading;
                        ActionOf::Upload
                    },
                    Err(reply) => self.end(answer(reply)),
                }
            },
            (ImportPhase::Uploading, Event::Uploaded(r)) => {
                match r {
                    Err(reply) => self.end(answer(reply)),
                    Ok((_, data)) => {
                        self.data = data;
                        self.phase = ImportPhase::LockingVault;
                        ActionOf::LockVault
                    },
                }
            },
            (ImportPhase::LockingVault, Event::Ready) => {
                self.phase = ImportPhase::LockingSession;
                ActionOf::LockSession
            },
            (ImportPhase::LockingSession, Event::Ready) => self.locked(app),
            (ImportPhase::Writing, Event::Done(r)) => {
                match r {
                    Err(why) => if self.lenient {
                        self.go(app)
                    } else {
                        self.end(fail(500, why))
                    },
                    Ok(()) => self.go(app),
                }
            },
            (ImportPhase::Committing, Event::Done(r)) => {
                match r {
                    Err(why) => self.end(fail(500, cat("git 提交失败：", why.as_str()))),
                    Ok(()) => {
                        self.phase = ImportPhase::Sealing;
                        ActionOf::Seal(self.work.clone())
                    },
                }
            },
            (ImportPhase::Sealing, Event::Done(r)) => {
                match r {
                    Err(why) => self.end(fail(500, cat("封印失败：", why.as_str()))),
                    Ok(()) => {
                        let discard = app.drop_session();
                        self.phase = ImportPhase::Reopening;
                        ActionOf::OpenSession { discard }
                    },
                }
            },
            (ImportPhase::Reopening, Event::Opened(r)) => {
                match r {
                    Ok((id, dir)) => {
                        app.adopt_session(id, dir);
                        self.phase = ImportPhase::ClearingChat;
                        ActionOf::LockChat
                    },
                    Err(why) => self.end(fail(500, cat("会话重建失败：", why.as_str()))),
                }
            },
            (ImportPhase::ClearingChat, Event::Ready) => {
                app.chat = false;
                let a = answer(self.report());
                self.end(a)
            },
            _ => self.end(ActionOf::Misfit),
        }
    }
}

// ---------------------------------------------------------------------------
// Laws
// ---------------------------------------------------------------------------

/// An import after some steps, each with the state of the service at that moment, which other
/// requests may have changed, and with what the last action came to.
pub open spec fn import_after(run: Importing, steps: Seq<(App, Event)>) -> Importing
    decreases steps.len(),
{
    if steps.len() == 0 {
        run
    } else {
        let last = steps.last();
        import_next(import_after(run, steps.drop_last()), last.0, last.1).0
    }
}

/// What the last of some steps asks for.
pub open spec fn import_last(run: Importing, steps: Seq<(App, Event)>) -> Act
    recommends
        steps.len() > 0,
{
    let last = steps.last();
    import_next(import_after(run, steps.drop_last()), last.0, last.1).2
}

/// One of the steps was told that what the import did in this phase was done.
pub open spec fn did(run: Importing, steps: Seq<(App, Event)>, phase: ImportPhase) -> bool {
    exists|k: int|
        0 <= k < steps.len() && import_after(run, #[trigger] steps.take(k)).phase == phase
            && went_well(steps[k].1)
}

proof fn lemma_did_stays(run: Importing, steps: Seq<(App, Event)>, phase: ImportPhase)
    requires
        steps.len() > 0,
        did(run, steps.drop_last(), phase),
    ensures
        did(run, steps, phase),
{
    let less = steps.drop_last();
    let k = choose|k: int|
        0 <= k < less.len() && import_after(run, #[trigger] less.take(k)).phase == phase
            && went_well(less[k].1);
    assert(steps.take(k) =~= less.take(k));
    assert(steps[k] == less[k]);
}

proof fn lemma_did_now(run: Importing, steps: Seq<(App, Event)>, phase: ImportPhase)
    requires
        steps.len() > 0,
        import_after(run, steps.drop_last()).phase == phase,
        went_well(steps.last().1),
    ensures
        did(run, steps, phase),
{
    let k = steps.len() - 1;
    assert(steps.take(k) =~= steps.drop_last());
}

/// The phases after the sealing.
pub open spec fn past_sealing(p: ImportPhase) -> bool {
    p == ImportPhase::Reopening || p == ImportPhase::ClearingChat
}

/// The phases after the commit.
pub open spec fn past_committing(p: ImportPhase) -> bool {
    p == ImportPhase::Sealing || past_sealing(p)
}

proof fn lemma_phases(run: Importing, steps: Seq<(App, Event)>)
    requires
        run.phase == ImportPhase::Start,
    ensures
        past_committing(import_after(run, steps).phase) ==> did(
            run,
            steps,
            ImportPhase::Committing,
        ),
        past_sealing(import_after(run, steps).phase) ==> did(run, steps, ImportPhase::Sealing),
        import_after(run, steps).phase == ImportPhase::Committing || past_committing(
            import_after(run, steps).phase,
        ) ==> import_after(run, steps).plan.failure is None && import_after(
            run,
            steps,
        ).plan.steps.len() == 0,
    decreases steps.len(),
{
    if steps.len() > 0 {
        let less = steps.drop_last();
        lemma_phases(run, less);
        let was = import_after(run, less).phase;
        if did(run, less, ImportPhase::Committing) {
            lemma_did_stays(run, steps, ImportPhase::Committing);
        }
        if did(run, less, ImportPhase::Sealing) {
            lemma_did_stays(run, steps, ImportPhase::Sealing);
        }
        if went_well(steps.last().1) {
            lemma_did_now(run, steps, was);
        }
    }
}

/// An import is reported as done only after every step of its plan was taken, none of its entries
/// was refused, and the result was committed and sealed into the container.
pub proof fn law_import_is_sealed_before_it_is_reported(steps: Seq<(App, Event)>)
    requires
        steps.len() > 0,
        import_last(new_import(), steps) matches ActionOf::Respond { status, body } && status
            == 200,
        steps.last().1 matches Event::Uploaded(r) ==> (r matches Err(reply) ==> reply.status != 200),
    ensures
        did(new_import(), steps, ImportPhase::Committing),
        did(new_import(), steps, ImportPhase::Sealing),
        import_after(new_import(), steps.drop_last()).plan.failure is None,
        import_after(new_import(), steps.drop_last()).plan.steps.len() == 0,
{
    let run = new_import();
    let less = steps.drop_last();
    lemma_phases(run, less);
    assert(import_after(run, less).phase == ImportPhase::ClearingChat);
    lemma_did_stays(run, steps, ImportPhase::Committing);
    lemma_did_stays(run, steps, ImportPhase::Sealing);
}

/// A request to import is turned away before anything is received while the gateway is closed.
pub proof fn law_import_needs_an_open_gate(app: App)
    requires
        !app.gateway.unlocked,
    ensures
        import_next(new_import(), app, Event::Start).1 == app,
        import_next(new_import(), app, Event::Start).2 == answer_with(locked_out()),
{
}

/// The steps that an import asked to be taken, in their order.
pub open spec fn asked(steps: Steps) -> Seq<ImportStepModel>
    decreases steps.len(),
{
    if steps.len() == 0 {
        seq![]
    } else {
        match import_last(new_import(), steps) {
            ActionOf::Import(step) => asked(steps.drop_last()).push(step),
            _ => asked(steps.drop_last()),
        }
    }
}

proof fn lemma_reported_anywhere(a: Seq<char>, b: Seq<char>, items: Seq<ZipItem>)
    ensures
        plan_of(a, items).imported == plan_of(b, items).imported,
        plan_of(a, items).skipped == plan_of(b, items).skipped,
        plan_of(a, items).failure == plan_of(b, items).failure,
    decreases items.len(),
{
    if items.len() > 0 {
        lemma_reported_anywhere(a, b, items.drop_last());
    }
}

/// The phases of an import in their order.
spec fn place(p: ImportPhase) -> int {
    match p {
        ImportPhase::Start => 0,
        ImportPhase::Uploading => 1,
        ImportPhase::LockingVault => 2,
        ImportPhase::LockingSession => 3,
        ImportPhase::Writing => 4,
        ImportPhase::Committing => 5,
        ImportPhase::Sealing => 6,
        ImportPhase::Reopening => 7,
        ImportPhase::ClearingChat => 8,
        ImportPhase::Finished => 9,
    }
}

/// What an import holds is what it was told, and what is left of the plan for it.
spec fn knows(steps: Steps) -> bool {
    let run = import_after(new_import(), steps);
    let at = place(run.phase);
    let plan = plan_for(run.work, told_data(steps));
    &&& at == 0 ==> steps.len() == 0
    &&& at <= 3 ==> asked(steps) == Seq::<ImportStepModel>::empty()
    &&& 2 <= at <= 8 ==> told_file(steps) is Some
    &&& 2 <= at <= 3 ==> run.data == told_data(steps)
    &&& 4 <= at <= 6 ==> Some(run.work) == session_found(steps)
    &&& 4 <= at <= 8 ==> plan.steps == asked(steps) + run.plan.steps && run.plan.imported
        == plan.imported && run.plan.skipped == plan.skipped && run.plan.failure == plan.failure
    &&& at == 4 ==> asked(steps).len() > 0 && (run.lenient <==> asked(steps).last() is MakeParent)
    &&& 5 <= at <= 8 ==> run.plan.steps.len() == 0 && plan.failure is None
}

#[verifier::spinoff_prover]
#[verifier::rlimit(60)]
proof fn lemma_knows(steps: Steps)
    ensures
        knows(steps),
    decreases steps.len(),
{
    if steps.len() > 0 {
        let less = steps.drop_last();
        lemma_knows(less);
        let was = import_after(new_import(), less);
        let run = import_after(new_import(), steps);
        let plan = plan_for(run.work, told_data(steps));
        if place(run.phase) == 4 {
            let all = if place(was.phase) == 3 {
                plan.steps
            } else {
                was.plan.steps
            };
            assert(all =~= seq![all[0]] + all.skip(1));
            assert(asked(steps) =~= asked(less) + seq![all[0]]);
            assert(plan.steps =~= asked(steps) + run.plan.steps);
        } else if place(run.phase) == 5 && place(was.phase) == 3 {
            assert(plan.steps =~= asked(steps) + run.plan.steps);
        }
    }
}

/// At every step of every run, an import does what the plan for the uploaded bytes says, in the
/// session that it found: its steps are taken in their order, and none is left out before the
/// import is committed. A refused archive is never committed.
pub proof fn law_import_follows_its_plan(steps: Steps)
    requires
        steps.len() > 0,
    ensures
        ({
            let plan = plan_for(session_found(steps)->0, told_data(steps));
            match import_last(new_import(), steps) {
                ActionOf::Import(step) => session_found(steps) is Some && told_file(steps) is Some
                    && asked(steps).last() == step && asked(steps).len() <= plan.steps.len()
                    && asked(steps) == plan.steps.take(asked(steps).len() as int),
                ActionOf::Commit { work_dir, message } => Some(work_dir) == session_found(steps)
                    && told_file(steps) is Some && asked(steps) == plan.steps
                    && plan.failure is None && message == "Import wiki bundle: "@ + decimal(
                    plan.imported.len(),
                ) + " files"@,
                ActionOf::Seal(dir) => Some(dir) == session_found(steps) && asked(steps)
                    == plan.steps && plan.failure is None,
                ActionOf::OpenSession { discard } => discard == session_dir(steps.last().0),
                _ => true,
            }
        }),
{
    lemma_knows(steps);
    lemma_knows(steps.drop_last());
    let run = import_after(new_import(), steps);
    let plan = plan_for(session_found(steps)->0, told_data(steps));
    if import_last(new_import(), steps) is Import {
        assert(asked(steps) =~= plan.steps.take(asked(steps).len() as int));
    }
    if import_last(new_import(), steps) is Commit || import_last(new_import(), steps) is Seal {
        assert(plan.steps =~= asked(steps));
    }
}

/// What an import is answered, in every run that comes to its end: what was imported and skipped of
/// the uploaded archive, wherever it was imported to. The chat ends.
pub proof fn law_import_reports_the_archive(steps: Steps, work: Seq<char>)
    requires
        steps.len() > 0,
        import_after(new_import(), steps.drop_last()).phase == ImportPhase::ClearingChat,
        steps.last().1 is Ready,
    ensures
        told_file(steps) is Some,
        reports(
            import_last(new_import(), steps),
            seq![
                Member {
                    key: "imported"@,
                    value: ValueOf::Texts(plan_for(work, told_data(steps)).imported),
                },
                Member {
                    key: "skipped"@,
                    value: ValueOf::Texts(plan_for(work, told_data(steps)).skipped),
                },
                Member { key: "committed"@, value: ValueOf::Flag(true) },
            ],
        ),
        !import_next(
            import_after(new_import(), steps.drop_last()),
            steps.last().0,
            steps.last().1,
        ).1.chat,
{
    let less = steps.drop_last();
    lemma_knows(less);
    let run = import_after(new_import(), less);
    match zip_contents(told_data(less)) {
        Ok(items) => {
            lemma_reported_anywhere(run.work, work, items);
        },
        Err(_) => {},
    }
}

/// What an import is answered when something goes wrong on its way, at the step where it does. That a
/// parent directory could not be made stops nothing; a refused archive is answered once what
/// precedes the refused entry has been taken.
pub proof fn law_import_says_what_went_wrong(run: Importing, app: App, why: String, reply: Reply)
    ensures
        run.phase == ImportPhase::Start && !app.gateway.unlocked ==> turns_away(
            import_next(run, app, Event::Start).2,
        ),
        run.phase == ImportPhase::Uploading ==> import_next(
            run,
            app,
            Event::Uploaded(Err(reply)),
        ).2 == (Act::Respond { status: reply.status, body: crate::reply::members(reply.body@) }),
        run.phase == ImportPhase::LockingSession && app.session is None ==> turns_away(
            import_next(run, app, Event::Ready).2,
        ),
        run.phase == ImportPhase::Writing && !run.lenient ==> refuses(
            import_next(run, app, Event::Done(Err(why))).2,
            500,
            why@,
        ),
        run.phase == ImportPhase::Writing && run.lenient ==> import_next(
            run,
            app,
            Event::Done(Err(why)),
        ) == import_next(run, app, Event::Done(Ok(()))),
        run.phase == ImportPhase::Writing && run.plan.steps.len() == 0 ==> (
        run.plan.failure matches Some(reason) ==> refuses(
            import_next(run, app, Event::Done(Ok(()))).2,
            400,
            reason,
        )),
        run.phase == ImportPhase::Committing ==> refuses(
            import_next(run, app, Event::Done(Err(why))).2,
            500,
            "git 提交失败："@ + why@,
        ),
        run.phase == ImportPhase::Sealing ==> refuses(
            import_next(run, app, Event::Done(Err(why))).2,
            500,
            "封印失败："@ + why@,
        ),
        run.phase == ImportPhase::Reopening ==> refuses(
            import_next(run, app, Event::Opened(Err(why))).2,
            500,
            "会话重建失败："@ + why@,
        ),
{
}

/// Along every run, only the making of a parent directory may fail without ending the import, and an
/// archive whose plan has no step is answered at once.
pub proof fn law_only_parents_may_fail(steps: Steps)
    ensures
        ({
            let run = import_after(new_import(), steps);
            &&& run.phase == ImportPhase::Writing ==> asked(steps).len() > 0 && (run.lenient <==> (
            asked(steps).last() is MakeParent))
            &&& run.phase == ImportPhase::LockingSession ==> told_file(steps) is Some && forall|
                app: App,
            |
                app.session is Some ==> ({
                    let plan = plan_for(app.session->0.work_dir, told_data(steps));
                    let a = (#[trigger] import_next(run, app, Event::Ready)).2;
                    &&& plan.steps.len() > 0 ==> a == Act::Import(plan.steps[0])
                    &&& plan.steps.len() == 0 && plan.failure is Some ==> refuses(
                        a,
                        400,
                        plan.failure->0,
                    )
                    &&& plan.steps.len() == 0 && plan.failure is None ==> a is Commit
                })
        }),
{
    lemma_knows(steps);
}

/// An import goes on from step to step as long as nothing goes wrong.
pub proof fn law_import_goes_on(run: Importing, app: App, ev: Event)
    ensures
        run.phase == ImportPhase::Start && ev is Start && app.gateway.unlocked ==> import_next(
            run,
            app,
            ev,
        ).2 == Act::Upload && import_next(run, app, ev).0.phase == ImportPhase::Uploading,
        run.phase == ImportPhase::Uploading && (ev matches Event::Uploaded(r) && r is Ok)
            ==> import_next(run, app, ev).2 == Act::LockVault && import_next(run, app, ev).0.phase
            == ImportPhase::LockingVault,
        run.phase == ImportPhase::LockingVault && ev is Ready ==> import_next(run, app, ev).2
            == Act::LockSession && import_next(run, app, ev).0.phase
            == ImportPhase::LockingSession,
        run.phase == ImportPhase::Writing && went_well(ev) ==> ({
            let (now, _, a) = import_next(run, app, ev);
            &&& run.plan.steps.len() > 0 ==> a == Act::Import(run.plan.steps[0]) && now.phase
                == ImportPhase::Writing
            &&& run.plan.steps.len() == 0 && run.plan.failure is None ==> a is Commit && now.phase
                == ImportPhase::Committing
        }),
        run.phase == ImportPhase::Committing && went_well(ev) ==> import_next(run, app, ev).2
            == Act::Seal(run.work) && import_next(run, app, ev).0.phase == ImportPhase::Sealing,
        run.phase == ImportPhase::Sealing && went_well(ev) ==> import_next(run, app, ev).2
            == (Act::OpenSession { discard: session_dir(app) }) && import_next(run, app, ev).0.phase
            == ImportPhase::Reopening && import_next(run, app, ev).1.session is None,
        run.phase == ImportPhase::Reopening ==> (ev matches Event::Opened(Ok((id, dir))) ==> ({
            let (now, after, a) = import_next(run, app, ev);
            &&& a == Act::LockChat
            &&& now.phase == ImportPhase::ClearingChat
            &&& after.session matches Some(s) && s.id == id@ && s.work_dir == dir@ && !s.terminate
            &&& after.gateway.sessions == app.gateway.sessions.insert(id@, dir@)
        })),
{
}

/// An import changes nothing in the state but the session, its entry with the gateway, and the chat.
pub proof fn law_import_leaves_the_rest(run: Importing, app: App, ev: Event)
    ensures
        ({
            let now = import_next(run, app, ev).1;
            &&& now.root == app.root
            &&& now.admin_token == app.admin_token
            &&& now.skills_root == app.skills_root
            &&& now.config_path == app.config_path
            &&& now.llm == app.llm
            &&& now.gateway.salt == app.gateway.salt
            &&& now.gateway.token == app.gateway.token
            &&& now.gateway.closed_at == app.gateway.closed_at
            &&& now.chat != app.chat ==> !now.chat && run.phase == ImportPhase::ClearingChat
            &&& now.session != app.session ==> went_well(ev) && run.phase == ImportPhase::Sealing
                && now.session is None || run.phase == ImportPhase::Reopening
        }),
{
}

} // verus!
