//! Changing the settings of the model: they are kept in a file, and hold from then on.

use crate::flow::{answer, fail, Action, ActionOf, Event};
#[allow(unused_imports)]
use crate::flow::{answer_with, fail_with, Act};
#[allow(unused_imports)]
use crate::history::{refuses, reports, turns_away};
use crate::llm::LlmConfig;
#[allow(unused_imports)]
use crate::llm::{json_document, setting_fields, Llm};
use crate::reply::{flag_field, one, Reply};
#[allow(unused_imports)]
use crate::reply::{flag_member, Answer, Member, ValueOf};
use crate::state::AppState;
#[allow(unused_imports)]
use crate::state::{locked_out, App};
use crate::text::{cat, is_blank, same, trimmed};
#[allow(unused_imports)]
use crate::text::trim;
use vstd::prelude::*;

verus! {

/// How far a change of the settings has come.
#[derive(Debug, Clone, Copy, PartialEq, Eq, Structural)]
pub enum SettingsPhase {
    Start,
    Saving,
    ClearingChat,
    Finished,
}

/// A change of the settings.
pub struct SettingsRun {
    pub phase: SettingsPhase,
    pub llm: LlmConfig,
}

/// The mathematical content of a change of the settings.
pub struct Setting {
    pub phase: SettingsPhase,
    pub llm: Llm,
}

impl View for SettingsRun {
    type V = Setting;

    open spec fn view(&self) -> Setting {
        Setting { phase: self.phase, llm: self.llm@ }
    }
}

/// The settings without white space around the address, the key and the model.
pub open spec fn tidy(llm: Llm) -> Llm {
    Llm {
        provider: llm.provider,
        base_url: trim(llm.base_url),
        api_key: trim(llm.api_key),
        model: trim(llm.model),
    }
}

pub open spec fn over(run: Setting, app: App, a: Act) -> (Setting, App, Act) {
    (Setting { phase: SettingsPhase::Finished, ..run }, app, a)
}

pub open spec fn settings_start(run: Setting, app: App) -> (Setting, App, Act) {
    let llm = tidy(run.llm);
    if !app.gateway.unlocked {
        over(run, app, answer_with(locked_out()))
    } else if run.llm.provider != "openai_compat"@ && run.llm.provider != "anthropic"@ {
        over(run, app, fail_with(400, "provider 仅支持 openai_compat 或 anthropic"@))
    } else if llm.base_url.len() == 0 || llm.api_key.len() == 0 || llm.model.len() == 0 {
        over(run, app, fail_with(400, "base_url / api_key / model 均不能为空"@))
    } else {
        (
            Setting { phase: SettingsPhase::Saving, llm },
            app,
            ActionOf::Save {
                path: app.config_path,
                text: json_document("llm"@, setting_fields(llm)),
            },
        )
    }
}

/// What a change of the settings does next. They hold once they are saved, and the chat, which
/// was held with the old ones, ends.
pub open spec fn settings_next(run: Setting, app: App, ev: Event) -> (Setting, App, Act) {
    match (run.phase, ev) {
        (SettingsPhase::Start, Event::Start) => settings_start(run, app),
        (SettingsPhase::Saving, Event::Done(r)) => match r {
            Err(why) => over(run, app, fail_with(500, "保存 appconfig.json 失败："@ + why@)),
            Ok(()) => (
                Setting { phase: SettingsPhase::ClearingChat, ..run },
                App { llm: run.llm, ..app },
                ActionOf::LockChat,
            ),
        },
        (SettingsPhase::ClearingChat, Event::Ready) => over(
            run,
            App { chat: false, ..app },
            answer_with(Answer { status: 200, body: seq![flag_member("saved"@, true)] }),
        ),
        _ => over(run, app, ActionOf::Misfit),
    }
}

impl SettingsRun {
    pub fn new(llm: LlmConfig) -> (run: SettingsRun)
        ensures
            run@ == (Setting { phase: SettingsPhase::Start, llm: llm@ }),
    {
        SettingsRun { phase: SettingsPhase::Start, llm }
    }

    fn end(&mut self, a: Action) -> (r: Action)
        ensures
            final(self)@ == (Setting { phase: SettingsPhase::Finished, ..old(self)@ }),
            r == a,
    {
        self.phase = SettingsPhase::Finished;
        a
    }

    fn start(&mut self, app: &AppState) -> (a: Action)
        ensures
            (final(self)@, app@, a@) == settings_start(old(self)@, app@),
    {
        match app.check_gate() {
            Ok(()) => {},
            Err(reply) => {
                return self.end(answer(reply));
            },
        }
        let provider = self.llm.provider.as_str();
        if !same(provider, "openai_compat") && !same(provider, "anthropic") {
            return self.end(fail(400, "provider 仅支持 openai_compat 或 anthropic".to_owned()));
        }
        if is_blank(self.llm.base_url.as_str()) || is_blank(self.llm.api_key.as_str()) || is_blank(
            self.llm.model.as_str(),
        ) {
            return self.end(fail(400, "base_url / api_key / model 均不能为空".to_owned()));
        }
        let llm = LlmConfig {
            provider: self.llm.provider.clone(),
            base_url: trimmed(self.llm.base_url.as_str()),
            api_key: trimmed(self.llm.api_key.as_str()),
            model: trimmed(self.llm.model.as_str()),
        };
        match llm.save() {
            Ok(text) => {
                self.llm = llm;
                self.phase = SettingsPhase::Saving;
                ActionOf::Save { path: app.config_path.clone(), text }
            },
            Err(why) => self.end(fail(500, cat("保存 appconfig.json 失败：", why.as_str()))),
        }
    }

    /// What is to be done next.
    pub fn next(&mut self, app: &mut AppState, ev: Event) -> (a: Action)
        ensures
            (final(self)@, final(app)@, a@) == settings_next(old(self)@, old(app)@, ev),
    {
        match (self.phase, ev) {
            (SettingsPhase::Start, Event::Start) => self.start(app),
            (SettingsPhase::Saving, Event::Done(r)) => {
                match r {
                    Err(why) => self.end(
                        fail(500, cat("保存 appconfig.json 失败：", why.as_str())),
                    ),
                    Ok(()) => {
                        app.llm = self.llm.clone();
                        self.phase = SettingsPhase::ClearingChat;
                        ActionOf::LockChat
                    },
                }
            },
            (SettingsPhase::ClearingChat, Event::Ready) => {
                app.chat = false;
                self.end(answer(Reply { status: 200, body: one(flag_field("saved", true)) }))
            },
            _ => self.end(ActionOf::Misfit),
        }
    }
}

/// Settings are taken over only with the gateway open and after they were saved, and then a model can
/// be asked.
pub proof fn law_settings_hold_once_saved(run: Setting, app: App, ev: Event)
    ensures
        settings_next(run, app, ev).1.llm != app.llm ==> run.phase == SettingsPhase::Saving
            && crate::flow::went_well(ev) && settings_next(run, app, ev).1.llm == run.llm,
        run.phase == SettingsPhase::Start && !app.gateway.unlocked && ev is Start
            ==> settings_next(run, app, ev).2 == answer_with(locked_out()),
        settings_start(run, app).2 is Save ==> settings_start(run, app).0.llm.api_key.len() > 0,
{
}

/// A change of the settings from its beginning to its end, with the state of the service at each of
/// its steps: which settings are turned away, and why; that the others are saved as they were given,
/// but for white space around them; that what was saved is what holds, from when it is saved; and
/// that the chat ends. Nothing else changes.
pub proof fn law_settings_are_taken_as_given(
    llm: Llm,
    app: App,
    saved_in: App,
    ended_in: App,
    why: String,
)
    ensures
        ({
            let first = Setting { phase: SettingsPhase::Start, llm };
            let clean = Llm {
                provider: llm.provider,
                base_url: trim(llm.base_url),
                api_key: trim(llm.api_key),
                model: trim(llm.model),
            };
            let known = llm.provider == "openai_compat"@ || llm.provider == "anthropic"@;
            let filled = clean.base_url.len() > 0 && clean.api_key.len() > 0 && clean.model.len()
                > 0;
            let (run, same, a) = settings_next(first, app, Event::Start);
            let (next, saved, b) = settings_next(run, saved_in, Event::Done(Ok(())));
            let (_, ended, c) = settings_next(next, ended_in, Event::Ready);
            let (_, kept, d) = settings_next(run, saved_in, Event::Done(Err(why)));
            &&& same == app
            &&& !app.gateway.unlocked ==> turns_away(a)
            &&& app.gateway.unlocked && !known ==> refuses(
                a,
                400,
                "provider 仅支持 openai_compat 或 anthropic"@,
            )
            &&& app.gateway.unlocked && known && !filled ==> refuses(
                a,
                400,
                "base_url / api_key / model 均不能为空"@,
            )
            &&& app.gateway.unlocked && known && filled ==> {
                &&& a == Act::Save {
                    path: app.config_path,
                    text: json_document(
                        "llm"@,
                        seq![
                            ("provider"@, clean.provider),
                            ("base_url"@, clean.base_url),
                            ("api_key"@, clean.api_key),
                            ("model"@, clean.model),
                        ],
                    ),
                }
                &&& saved == (App { llm: clean, ..saved_in })
                &&& b == Act::LockChat
                &&& ended == (App { chat: false, ..ended_in })
                &&& reports(c, seq![Member { key: "saved"@, value: ValueOf::Flag(true) }])
                &&& kept == saved_in
                &&& refuses(d, 500, "保存 appconfig.json 失败："@ + why@)
            }
        }),
{
}

} // verus!
