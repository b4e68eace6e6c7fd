//! What a request is told on its way, step by step, whatever it makes of it, and how its answers are
//! written.

#[allow(unused_imports)]
use crate::flow::{Act, ActionOf, Event};
#[allow(unused_imports)]
use crate::llm::{loaded_settings, Llm};
#[allow(unused_imports)]
use crate::reply::{Member, ValueOf};
#[allow(unused_imports)]
use crate::snapshot::{mark_models, Mark};
#[allow(unused_imports)]
use crate::state::App;
use crate::tree::RawEntry;
use vstd::prelude::*;

verus! {

/// What a request was told, each time with the state of the service at that moment.
pub type Steps = Seq<(App, Event)>;

/// The name and the content of the file that was uploaded.
pub open spec fn told_file(steps: Steps) -> Option<(Seq<char>, Seq<u8>)>
    decreases steps.len(),
{
    if steps.len() == 0 {
        None
    } else {
        match steps.last().1 {
            Event::Uploaded(Ok((name, data))) => Some((name@, data@)),
            _ => told_file(steps.drop_last()),
        }
    }
}

/// The content of the file that was uploaded.
pub open spec fn told_data(steps: Steps) -> Seq<u8> {
    match told_file(steps) {
        Some((name, data)) => data,
        None => seq![],
    }
}

/// The name of the file that was uploaded.
pub open spec fn told_name(steps: Steps) -> Seq<char> {
    match told_file(steps) {
        Some((name, data)) => name,
        None => seq![],
    }
}

/// The text that the agent answered.
pub open spec fn told_answer(steps: Steps) -> Option<Seq<char>>
    decreases steps.len(),
{
    if steps.len() == 0 {
        None
    } else {
        match steps.last().1 {
            Event::Answered { result: Ok(text), sent_error } => Some(text@),
            _ => told_answer(steps.drop_last()),
        }
    }
}

/// Why the agent gave no answer.
pub open spec fn told_failure(steps: Steps) -> Option<Seq<char>>
    decreases steps.len(),
{
    if steps.len() == 0 {
        None
    } else {
        match steps.last().1 {
            Event::Answered { result: Err(why), sent_error } => Some(why@),
            _ => told_failure(steps.drop_last()),
        }
    }
}

/// The time.
pub open spec fn told_time(steps: Steps) -> Option<nat>
    decreases steps.len(),
{
    if steps.len() == 0 {
        None
    } else {
        match steps.last().1 {
            Event::Time(time) => Some(time as nat),
            _ => told_time(steps.drop_last()),
        }
    }
}

/// The marks of the files, each time that they were asked for.
pub open spec fn told_marks(steps: Steps) -> Seq<Seq<Mark>>
    decreases steps.len(),
{
    if steps.len() == 0 {
        seq![]
    } else {
        match steps.last().1 {
            Event::Marks(marks) => told_marks(steps.drop_last()).push(mark_models(marks@)),
            _ => told_marks(steps.drop_last()),
        }
    }
}

/// The settings that were found on looking for them once more.
pub open spec fn told_settings(steps: Steps) -> Option<Llm>
    decreases steps.len(),
{
    if steps.len() == 0 {
        None
    } else {
        match steps.last().1 {
            Event::Llm { file, env } => Some(loaded_settings(file, env)),
            _ => told_settings(steps.drop_last()),
        }
    }
}

/// The real path of what is worked on.
pub open spec fn told_target(steps: Steps) -> Option<Seq<char>>
    decreases steps.len(),
{
    if steps.len() == 0 {
        None
    } else {
        match steps.last().1 {
            Event::Resolved { root, target: Some(target) } => Some(target@),
            _ => told_target(steps.drop_last()),
        }
    }
}

/// What there is at that path.
pub open spec fn told_entry(steps: Steps) -> Option<RawEntry>
    decreases steps.len(),
{
    if steps.len() == 0 {
        None
    } else {
        match steps.last().1 {
            Event::Scanned(e) => Some(e),
            _ => told_entry(steps.drop_last()),
        }
    }
}

/// The bytes that were read or computed, one after the other.
pub open spec fn told_bytes(steps: Steps) -> Seq<Seq<u8>>
    decreases steps.len(),
{
    if steps.len() == 0 {
        seq![]
    } else {
        match steps.last().1 {
            Event::Bytes(Ok(data)) => told_bytes(steps.drop_last()).push(data@),
            _ => told_bytes(steps.drop_last()),
        }
    }
}

/// The token that was read or made.
pub open spec fn told_token(steps: Steps) -> Option<Seq<char>>
    decreases steps.len(),
{
    if steps.len() == 0 {
        None
    } else {
        match steps.last().1 {
            Event::Token(Ok(token)) => Some(token@),
            _ => told_token(steps.drop_last()),
        }
    }
}

/// The directory of the session that a request works in: of the one that it found in the state when
/// its turn came, or of the one that it opened.
pub open spec fn session_found(steps: Steps) -> Option<Seq<char>>
    decreases steps.len(),
{
    if steps.len() == 0 {
        None
    } else {
        match steps.last().1 {
            Event::Ready => match steps.last().0.session {
                Some(s) => Some(s.work_dir),
                None => None,
            },
            Event::Opened(Ok((id, dir))) => Some(dir@),
            _ => session_found(steps.drop_last()),
        }
    }
}

/// The answer has this status, and says nothing but what went wrong.
pub open spec fn refuses(a: Act, status: u16, why: Seq<char>) -> bool {
    a == Act::Respond {
        status,
        body: seq![Member { key: "error"@, value: ValueOf::Text(why) }],
    }
}

/// The stream ends, and says nothing but what went wrong.
pub open spec fn breaks(a: Act, why: Seq<char>) -> bool {
    a == Act::Finish(
        Some(
            seq![
                Member { key: "type"@, value: ValueOf::Text("error"@) },
                Member { key: "error"@, value: ValueOf::Text(why) },
            ],
        ),
    )
}

/// The answer is a success with these members.
pub open spec fn reports(a: Act, body: Seq<Member>) -> bool {
    a == Act::Respond { status: 200, body }
}

/// The request is turned away since the vault is locked.
pub open spec fn turns_away(a: Act) -> bool {
    refuses(a, 423, "知识库已锁定：请先解锁（POST /api/gateway/open）"@)
}

} // verus!
