//! The language in which a request is worked off: it asks for one action after the other, and is
//! told of what each came to.

use crate::agent::WikiAgent;
#[allow(unused_imports)]
use crate::agent::AgentModel;
use crate::gateway::{KernelCallOf, Unlocking};
use crate::import::ImportStepOf;
use crate::llm::LlmEnv;
#[allow(unused_imports)]
use crate::reply::{broken, members, refusal, Answer, Member, ValueModel, ValueOf};
use crate::reply::{break_off, refuse, Field, Reply};
use crate::snapshot::FileMark;
use crate::tree::RawEntry;
use vstd::prelude::*;

verus! {

/// What is to be done next, over texts `T`, bytes `B`, objects `F` and agents `A`.
pub enum ActionOf<T, B, F, A> {
    /// Answer the request. Nothing follows.
    Respond { status: u16, body: F },
    /// Send a last object, if there is one, and end the stream. Nothing follows.
    Finish(Option<F>),
    /// What was told is no answer to what was asked. Nothing follows.
    Misfit,
    /// Answer the request with a stream.
    StartStream,
    /// Wait until no other request writes to the vault.
    LockVault,
    /// Wait until no other request replaces the session, and let none replace it from now on.
    ShareSession,
    /// Wait until no other request uses the session, and let none use it from now on.
    LockSession,
    /// Wait until no other request uses the chat.
    LockChat,
    /// Find out whether there is such a file.
    Probe(T),
    /// Have the kernel do something. Where it is the kernel of all requests, none of them takes a
    /// step before this one is told what that came to, so that the gateway always says what the
    /// kernel holds.
    Kernel(KernelCallOf<T, B>),
    /// Receive the upload.
    Upload,
    /// Read the settings of the model from this file, and from the environment.
    LoadLlm(T),
    /// Destroy a directory, if one is given, and open a session. After that, other requests may
    /// use the session again.
    OpenSession { discard: Option<T> },
    /// Destroy a directory, if one is given.
    Discard(Option<T>),
    /// Mark the files of a directory.
    Mark(T),
    /// Read the clock, in milliseconds since 1970.
    Clock,
    /// Write a file, and the directories it lies in.
    Store { path: T, data: B },
    /// Put a question to an agent, and pass on its news if it is for a stream.
    Ask { agent: A, prompt: T, stream: bool },
    /// Seal the session in this directory.
    Seal(T),
    /// Commit what changed in a directory.
    Commit { work_dir: T, message: T },
    /// Find the real paths of a directory and of what `rel` names in it.
    Resolve { root: T, rel: T },
    /// List what there is at a path.
    Scan(T),
    /// Remove a file, or a directory with all that is in it.
    Remove { target: T, tree: bool },
    /// Take one step of an import.
    Import(ImportStepOf<T, B>),
    /// Read a file as text.
    ReadText(T),
    /// Begin a chat with an agent.
    CreateChat(A),
    /// Say something in the chat, and pass on the news.
    Send(T),
    /// Write a file that only its owner may read.
    Save { path: T, text: T },
    /// Make a kernel with a new salt, for the calls of this request.
    NewKernel,
    /// Pack an empty directory.
    PackEmpty,
    /// Write a container in place of the one that is there.
    WriteContainer { path: T, data: B },
    /// Read a container.
    ReadContainer(T),
    /// Make a kernel with this salt, for all further requests. None of them takes a step before
    /// this one is told.
    LoadKernel(B),
    /// Read the admin token from this file, or make one and write it there.
    EnsureAdminToken(T),
}

pub type Action = ActionOf<String, Vec<u8>, Vec<Field>, WikiAgent>;

pub type Act = ActionOf<Seq<char>, Seq<u8>, Seq<Member>, AgentModel>;

pub open spec fn maybe(s: Option<String>) -> Option<Seq<char>> {
    match s {
        Some(s) => Some(s@),
        None => None,
    }
}

impl View for ActionOf<String, Vec<u8>, Vec<Field>, WikiAgent> {
    type V = Act;

    open spec fn view(&self) -> Act {
        match *self {
            ActionOf::Respond { status, body } => ActionOf::Respond { status, body: members(body@) },
            ActionOf::Finish(last) => ActionOf::Finish(
                match last {
                    Some(body) => Some(members(body@)),
                    None => None,
                },
            ),
            ActionOf::Misfit => ActionOf::Misfit,
            ActionOf::StartStream => ActionOf::StartStream,
            ActionOf::LockVault => ActionOf::LockVault,
            ActionOf::ShareSession => ActionOf::ShareSession,
            ActionOf::LockSession => ActionOf::LockSession,
            ActionOf::LockChat => ActionOf::LockChat,
            ActionOf::Probe(path) => ActionOf::Probe(path@),
            ActionOf::Kernel(call) => ActionOf::Kernel(call@),
            ActionOf::Upload => ActionOf::Upload,
            ActionOf::LoadLlm(path) => ActionOf::LoadLlm(path@),
            ActionOf::OpenSession { discard } => ActionOf::OpenSession { discard: maybe(discard) },
            ActionOf::Discard(dir) => ActionOf::Discard(maybe(dir)),
            ActionOf::Mark(dir) => ActionOf::Mark(dir@),
            ActionOf::Clock => ActionOf::Clock,
            ActionOf::Store { path, data } => ActionOf::Store { path: path@, data: data@ },
            ActionOf::Ask { agent, prompt, stream } => ActionOf::Ask {
                agent: agent@,
                prompt: prompt@,
                stream,
            },
            ActionOf::Seal(dir) => ActionOf::Seal(dir@),
            ActionOf::Commit { work_dir, message } => ActionOf::Commit {
                work_dir: work_dir@,
                message: message@,
            },
            ActionOf::Resolve { root, rel } => ActionOf::Resolve { root: root@, rel: rel@ },
            ActionOf::Scan(path) => ActionOf::Scan(path@),
            ActionOf::Remove { target, tree } => ActionOf::Remove { target: target@, tree },
            ActionOf::Import(step) => ActionOf::Import(step@),
            ActionOf::ReadText(path) => ActionOf::ReadText(path@),
            ActionOf::CreateChat(agent) => ActionOf::CreateChat(agent@),
            ActionOf::Send(message) => ActionOf::Send(message@),
            ActionOf::Save { path, text } => ActionOf::Save { path: path@, text: text@ },
            ActionOf::NewKernel => ActionOf::NewKernel,
            ActionOf::PackEmpty => ActionOf::PackEmpty,
            ActionOf::WriteContainer { path, data } => ActionOf::WriteContainer {
                path: path@,
                data: data@,
            },
            ActionOf::ReadContainer(path) => ActionOf::ReadContainer(path@),
            ActionOf::LoadKernel(salt) => ActionOf::LoadKernel(salt@),
            ActionOf::EnsureAdminToken(path) => ActionOf::EnsureAdminToken(path@),
        }
    }
}

/// What an action came to.
pub enum Event {
    /// The request has come in.
    Start,
    /// What was waited for, or asked for without a result, has come about.
    Ready,
    /// The files that there are, of those that were asked for.
    Present(Vec<String>),
    /// What an attempt to unlock came to, and whether the kernel holds a key after it.
    Unlocked { attempt: Unlocking, unlocked: bool },
    /// Something was done, or could not be.
    Done(Result<(), String>),
    /// A session was opened: its id and its directory.
    Opened(Result<(String, String), String>),
    /// The name and the content of the uploaded file, or what to answer without it.
    Uploaded(Result<(String, Vec<u8>), Reply>),
    /// The text of the settings file, if there is one, and the environment.
    Llm { file: Option<String>, env: LlmEnv },
    /// The files of a directory.
    Marks(Vec<FileMark>),
    /// The time.
    Time(u128),
    /// What an agent answered, and whether it sent an error as news.
    Answered { result: Result<String, String>, sent_error: bool },
    /// The real path of a directory, and of what lies in it, if that exists.
    Resolved { root: Result<String, String>, target: Option<String> },
    /// What there is at a path.
    Scanned(RawEntry),
    /// The text of a file, if it can be read.
    Text(Option<String>),
    /// Bytes that were read or computed.
    Bytes(Result<Vec<u8>, String>),
    /// A token that was read or made.
    Token(Result<String, String>),
}

/// The action was done.
pub open spec fn went_well(ev: Event) -> bool {
    ev matches Event::Done(r) && r is Ok
}

/// The end of a request that is answered so.
pub open spec fn answer_with(a: Answer) -> Act {
    ActionOf::Respond { status: a.status, body: a.body }
}

/// The end of a request that fails.
pub open spec fn fail_with(status: u16, why: Seq<char>) -> Act {
    answer_with(refusal(status, why))
}

/// The end of a stream that fails.
pub open spec fn break_with(why: Seq<char>) -> Act {
    ActionOf::Finish(Some(broken(why)))
}

/// The end of a request that is answered so.
pub fn answer(r: Reply) -> (a: Action)
    ensures
        a@ == answer_with(r@),
{
    ActionOf::Respond { status: r.status, body: r.body }
}

/// The end of a request that fails.
pub fn fail(status: u16, why: String) -> (a: Action)
    ensures
        a@ == fail_with(status, why@),
{
    answer(refuse(status, why))
}

/// The end of a stream that fails.
pub fn fail_stream(why: String) -> (a: Action)
    ensures
        a@ == break_with(why@),
{
    ActionOf::Finish(Some(break_off(why)))
}

/// The model of an action on files says what the action says: the same paths, and every byte and
/// character of what is written.
pub proof fn law_file_actions_are_modelled_whole(
    path: String,
    other: String,
    data: Vec<u8>,
    maybe_dir: Option<String>,
    tree: bool,
)
    ensures
        (Action::Store { path, data })@ == (Act::Store { path: path@, data: data@ }),
        (Action::Save { path, text: other })@ == (Act::Save { path: path@, text: other@ }),
        (Action::Resolve { root: path, rel: other })@ == (Act::Resolve {
            root: path@,
            rel: other@,
        }),
        (Action::Remove { target: path, tree })@ == (Act::Remove { target: path@, tree }),
        (Action::WriteContainer { path, data })@ == (Act::WriteContainer {
            path: path@,
            data: data@,
        }),
        (Action::Import(ImportStepOf::MakeDir(path)))@ == Act::Import(
            ImportStepOf::MakeDir(path@),
        ),
        (Action::Import(ImportStepOf::MakeParent(path)))@ == Act::Import(
            ImportStepOf::MakeParent(path@),
        ),
        (Action::Import(ImportStepOf::WriteFile { path, data }))@ == Act::Import(
            ImportStepOf::WriteFile { path: path@, data: data@ },
        ),
        (Action::OpenSession { discard: Some(path) })@ == (Act::OpenSession {
            discard: Some(path@),
        }),
        (Action::OpenSession { discard: None })@ == (Act::OpenSession { discard: None }),
        (Action::Discard(Some(path)))@ == Act::Discard(Some(path@)),
        (Action::Discard(None))@ == Act::Discard(None),
        (Action::Probe(path))@ == Act::Probe(path@),
        (Action::LoadLlm(path))@ == Act::LoadLlm(path@),
        (Action::Mark(path))@ == Act::Mark(path@),
        (Action::Seal(path))@ == Act::Seal(path@),
        (Action::Scan(path))@ == Act::Scan(path@),
        (Action::ReadText(path))@ == Act::ReadText(path@),
        (Action::ReadContainer(path))@ == Act::ReadContainer(path@),
        (Action::LoadKernel(data))@ == Act::LoadKernel(data@),
        (Action::EnsureAdminToken(path))@ == Act::EnsureAdminToken(path@),
{
}

/// The model of what an agent, the kernel or the one who asked is told says all of it.
pub proof fn law_messages_are_modelled_whole(
    agent: WikiAgent,
    text: String,
    other: String,
    data: Vec<u8>,
    stream: bool,
    status: u16,
    body: Vec<Field>,
    i: int,
)
    ensures
        (Action::Ask { agent, prompt: text, stream })@ == (Act::Ask {
            agent: agent@,
            prompt: text@,
            stream,
        }),
        (Action::CreateChat(agent))@ == Act::CreateChat(agent@),
        agent@.skills_root == agent.skills_root@,
        agent@.work_dir == agent.work_dir@,
        agent@.llm.provider == agent.llm.provider@,
        agent@.llm.base_url == agent.llm.base_url@,
        agent@.llm.api_key == agent.llm.api_key@,
        agent@.llm.model == agent.llm.model@,
        agent.mindrule is None <==> agent@.mindrule is None,
        agent.mindrule is Some ==> agent@.mindrule->0 == agent.mindrule->0@,
        (Action::Send(text))@ == Act::Send(text@),
        (Action::Commit { work_dir: text, message: other })@ == (Act::Commit {
            work_dir: text@,
            message: other@,
        }),
        (Action::Kernel(KernelCallOf::Unlock { password: text }))@ == Act::Kernel(
            KernelCallOf::Unlock { password: text@ },
        ),
        (Action::Kernel(KernelCallOf::UnlockWithVerify { password: text, token: data }))@
            == Act::Kernel(KernelCallOf::UnlockWithVerify { password: text@, token: data@ }),
        (Action::Kernel(KernelCallOf::Encrypt(data)))@ == Act::Kernel(KernelCallOf::Encrypt(data@)),
        (Action::Kernel(KernelCallOf::Decrypt(data)))@ == Act::Kernel(KernelCallOf::Decrypt(data@)),
        (Action::Respond { status, body })@ is Respond,
        (Action::Respond { status, body })@->status == status,
        (Action::Respond { status, body })@->body.len() == body@.len(),
        0 <= i < body@.len() ==> (Action::Respond { status, body })@->body[i].key == body@[i].key@,
        0 <= i < body@.len() ==> (match body@[i].value {
            ValueOf::Null => (Action::Respond { status, body })@->body[i].value is Null,
            ValueOf::Flag(b) => (Action::Respond { status, body })@->body[i].value
                == ValueModel::Flag(b),
            ValueOf::Count(n) => (Action::Respond { status, body })@->body[i].value
                == ValueModel::Count(n),
            ValueOf::Text(s) => (Action::Respond { status, body })@->body[i].value
                == ValueModel::Text(s@),
            ValueOf::Texts(v) => (Action::Respond { status, body })@->body[i].value
                == ValueModel::Texts(v@.map_values(|s: String| s@)),
        }),
        (Action::Finish(Some(body)))@ == Act::Finish(Some((Action::Respond { status, body })@->body)),
        (Action::Finish(None))@ == Act::Finish(None),
{
}

} // verus!
