//! What holds of all requests together.

#[allow(unused_imports)]
use crate::bundle::{import_next, new_import, Importing};
#[allow(unused_imports)]
use crate::chat::{chat_next, new_message, reset_next, Chatting, ResetPhase};
#[allow(unused_imports)]
use crate::entry::{delete_next, new_deletion, Deletion};
#[allow(unused_imports)]
use crate::flow::{answer_with, Act, Event};
#[allow(unused_imports)]
use crate::gate::{close_next, init_next, new_creation, open_next, Closer, Creation, Opener};
#[allow(unused_imports)]
use crate::ingest::{ingest_next, new_ingestion, Ingestion};
#[allow(unused_imports)]
use crate::llm::Llm;
#[allow(unused_imports)]
use crate::query::{new_query, query_next, Query};
#[allow(unused_imports)]
use crate::reply::Answer;
#[allow(unused_imports)]
use crate::settings::{settings_next, Setting, SettingsPhase};
#[allow(unused_imports)]
use crate::state::{browsed, llm_ready, llm_report, locked_out, session_dir, App};
use vstd::prelude::*;

verus! {

/// While the gateway is closed, every request to the content or to the settings is turned away with
/// the same answer, and changes nothing. (Requests that need a model are first asked for one.)
pub proof fn law_closed_gate_turns_everything_away(
    app: App,
    path: Seq<char>,
    mode: Seq<char>,
    text: Seq<char>,
    llm: Llm,
    stream: bool,
)
    requires
        !app.gateway.unlocked,
    ensures
        ({
            let (_, s, a) = delete_next(new_deletion(path, mode), app, Event::Start);
            s == app && a == answer_with(locked_out())
        }),
        ({
            let (_, s, a) = import_next(new_import(), app, Event::Start);
            s == app && a == answer_with(locked_out())
        }),
        ({
            let run = Setting { phase: SettingsPhase::Start, llm };
            let (_, s, a) = settings_next(run, app, Event::Start);
            s == app && a == answer_with(locked_out())
        }),
        ({
            let (_, s, a) = reset_next(ResetPhase::Start, app, Event::Start);
            s == app && a == answer_with(locked_out())
        }),
        llm_ready(app) ==> ({
            let (_, s, a) = ingest_next(new_ingestion(stream), app, Event::Start);
            s == app && a == answer_with(locked_out())
        }),
        llm_ready(app) ==> ({
            let (_, s, a) = query_next(new_query(text), app, Event::Start);
            s == app && a == answer_with(locked_out())
        }),
        llm_ready(app) ==> ({
            let (_, s, a) = chat_next(new_message(text), app, Event::Start);
            s == app && a == answer_with(locked_out())
        }),
        browsed(app) == Err::<Seq<char>, Answer>(locked_out()),
        llm_report(app) == locked_out(),
        locked_out().status == 423,
{
}

/// No session is registered but the one that requests work in.
pub open spec fn at_most_one_session(app: App) -> bool {
    forall|id: Seq<char>| #[trigger]
        app.gateway.sessions.dom().contains(id) ==> (app.session matches Some(s) && s.id == id)
}

/// A session that was opened comes where there is none. A request that asks for one leaves none in
/// the state, and keeps the others from using the session until it is told of the new one.
pub open spec fn opens_into_nothing(app: App, ev: Event) -> bool {
    ev matches Event::Opened(r) ==> (r is Ok ==> app.session is None)
}

/// A session is asked for only where there is none any more.
pub proof fn law_sessions_are_asked_for_where_there_is_none(
    app: App,
    ev: Event,
    delete: Deletion,
    import: Importing,
    ingest: Ingestion,
    query: Query,
    chat: Chatting,
    open: Opener,
)
    ensures
        delete_next(delete, app, ev).2 is OpenSession ==> delete_next(
            delete,
            app,
            ev,
        ).1.session is None,
        import_next(import, app, ev).2 is OpenSession ==> import_next(
            import,
            app,
            ev,
        ).1.session is None,
        ingest_next(ingest, app, ev).2 is OpenSession ==> ingest_next(
            ingest,
            app,
            ev,
        ).1.session is None,
        query_next(query, app, ev).2 is OpenSession ==> query_next(query, app, ev).1.session is None,
        chat_next(chat, app, ev).2 is OpenSession ==> chat_next(chat, app, ev).1.session is None,
        open_next(open, app, ev).2 is OpenSession ==> open_next(open, app, ev).1.session is None,
{
}

/// The gateway that a vault is created with has no session.
pub open spec fn creates_without_sessions(init: Creation) -> bool {
    init.gateway matches Some(g) ==> g.sessions.dom().is_empty()
}

/// A request to create a vault has no session to begin with, and gets none on its way.
pub proof fn law_a_vault_is_created_without_sessions(
    app: App,
    ev: Event,
    init: Creation,
    password: Seq<char>,
)
    ensures
        creates_without_sessions(new_creation(password)),
        creates_without_sessions(init) ==> creates_without_sessions(init_next(init, app, ev).0),
{
}

/// Whatever request is worked off, and however far it has come, no more than one session is
/// registered.
pub proof fn law_at_most_one_session(
    app: App,
    ev: Event,
    delete: Deletion,
    import: Importing,
    ingest: Ingestion,
    query: Query,
    chat: Chatting,
    open: Opener,
    close: Closer,
    init: Creation,
    settings: Setting,
    reset: ResetPhase,
)
    requires
        at_most_one_session(app),
        opens_into_nothing(app, ev),
        creates_without_sessions(init),
    ensures
        at_most_one_session(delete_next(delete, app, ev).1),
        at_most_one_session(import_next(import, app, ev).1),
        at_most_one_session(ingest_next(ingest, app, ev).1),
        at_most_one_session(query_next(query, app, ev).1),
        at_most_one_session(chat_next(chat, app, ev).1),
        at_most_one_session(open_next(open, app, ev).1),
        at_most_one_session(close_next(close, app, ev).1),
        at_most_one_session(init_next(init, app, ev).1),
        at_most_one_session(settings_next(settings, app, ev).1),
        at_most_one_session(reset_next(reset, app, ev).1),
{
}

/// The session that is given up in this step, if one is, is handed over to be destroyed.
pub open spec fn hands_over(app: App, now: App, a: Act) -> bool {
    app.session is Some && session_dir(now) != session_dir(app) ==> a == Act::OpenSession {
        discard: session_dir(app),
    } || a == Act::Discard(session_dir(app))
}

/// No decrypted directory is left behind: whatever request is worked off, a session leaves the
/// state only together with the order to destroy its directory.
pub proof fn law_no_session_is_left_behind(
    app: App,
    ev: Event,
    delete: Deletion,
    import: Importing,
    ingest: Ingestion,
    query: Query,
    chat: Chatting,
    open: Opener,
    close: Closer,
    init: Creation,
    settings: Setting,
    reset: ResetPhase,
)
    requires
        opens_into_nothing(app, ev),
    ensures
        hands_over(app, delete_next(delete, app, ev).1, delete_next(delete, app, ev).2),
        hands_over(app, import_next(import, app, ev).1, import_next(import, app, ev).2),
        hands_over(app, ingest_next(ingest, app, ev).1, ingest_next(ingest, app, ev).2),
        hands_over(app, query_next(query, app, ev).1, query_next(query, app, ev).2),
        hands_over(app, chat_next(chat, app, ev).1, chat_next(chat, app, ev).2),
        hands_over(app, open_next(open, app, ev).1, open_next(open, app, ev).2),
        hands_over(app, close_next(close, app, ev).1, close_next(close, app, ev).2),
        hands_over(app, init_next(init, app, ev).1, init_next(init, app, ev).2),
        hands_over(app, settings_next(settings, app, ev).1, settings_next(settings, app, ev).2),
        hands_over(app, reset_next(reset, app, ev).1, reset_next(reset, app, ev).2),
{
}

/// Requests to the content and to the settings leave the gateway as it is, and a request to lock
/// never opens it.
pub proof fn law_content_leaves_the_gate(
    app: App,
    ev: Event,
    delete: Deletion,
    import: Importing,
    ingest: Ingestion,
    query: Query,
    chat: Chatting,
    close: Closer,
    settings: Setting,
    reset: ResetPhase,
)
    ensures
        delete_next(delete, app, ev).1.gateway.unlocked == app.gateway.unlocked,
        import_next(import, app, ev).1.gateway.unlocked == app.gateway.unlocked,
        ingest_next(ingest, app, ev).1.gateway.unlocked == app.gateway.unlocked,
        query_next(query, app, ev).1.gateway.unlocked == app.gateway.unlocked,
        chat_next(chat, app, ev).1.gateway.unlocked == app.gateway.unlocked,
        settings_next(settings, app, ev).1.gateway.unlocked == app.gateway.unlocked,
        reset_next(reset, app, ev).1.gateway.unlocked == app.gateway.unlocked,
        close_next(close, app, ev).1.gateway.unlocked ==> app.gateway.unlocked,
{
}

} // verus!
