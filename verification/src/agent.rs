//! The agent that works on a wiki: what it is told, and how its model is reached.

use crate::llm::{LlmConfig, LlmEnv};
#[allow(unused_imports)]
use crate::llm::{env_settings, Llm};
#[allow(unused_imports)]
use crate::skills::{loads, prompt_block, Skill};
use crate::skills::{SkillListing, SkillLoader};
use crate::text::{cat, cat3, same};
use vstd::prelude::*;

verus! {

/// What every agent is told first.
pub const INTRODUCTION: &'static str = "你是 Mind Wiki 的知识库引擎。严格遵守 skills 中的方法与铁律。\n\n铁律：当前工作目录就是知识库根目录。所有文件读写、git 操作一律在当前目录内（用相对路径）；绝不 cd 到其他目录，绝不读写当前目录之外的任何路径。技能全文已注入本提示词，无需也不应去读技能文件本身。\n";

/// What stands between a persona and the skills.
pub const PERSONA_BREAK: &'static str = "\n\n===== 以下是你可调用的知识库操作技能（检索资料时用，但表达上必须内化为个人经验，绝不提及工具或知识库）=====\n";

/// How a persona's chat is to be held.
pub const PERSONA_CHAT: &'static str = "\n\n这是多轮对话，用 wiki-query 技能查知识库回答。";

/// How a chat is to be held.
pub const PLAIN_CHAT: &'static str = "\n这是多轮对话，用 wiki-query 技能查知识库回答。\n";

/// Where a model is reached, and which one.
pub struct Endpoint {
    pub base_url: String,
    pub api_key: String,
    pub model: String,
}

/// What an agent is started with.
pub struct AgentConfig {
    pub provider: String,
    pub anthropic: Endpoint,
    pub openai_compat: Endpoint,
    pub work_dir: String,
    pub system_prompt: String,
}

/// The mathematical content of an endpoint.
pub struct EndpointModel {
    pub base_url: Seq<char>,
    pub api_key: Seq<char>,
    pub model: Seq<char>,
}

/// The mathematical content of a configuration.
pub struct ConfigModel {
    pub provider: Seq<char>,
    pub anthropic: EndpointModel,
    pub openai_compat: EndpointModel,
    pub work_dir: Seq<char>,
    pub system_prompt: Seq<char>,
}

impl View for Endpoint {
    type V = EndpointModel;

    open spec fn view(&self) -> EndpointModel {
        EndpointModel { base_url: self.base_url@, api_key: self.api_key@, model: self.model@ }
    }
}

impl View for AgentConfig {
    type V = ConfigModel;

    open spec fn view(&self) -> ConfigModel {
        ConfigModel {
            provider: self.provider@,
            anthropic: self.anthropic@,
            openai_compat: self.openai_compat@,
            work_dir: self.work_dir@,
            system_prompt: self.system_prompt@,
        }
    }
}

pub struct WikiAgent {
    pub skills_root: String,
    pub work_dir: String,
    pub llm: LlmConfig,
    /// A persona, which a chat begins with.
    pub mindrule: Option<String>,
}

/// The mathematical content of an agent.
pub struct AgentModel {
    pub skills_root: Seq<char>,
    pub work_dir: Seq<char>,
    pub llm: Llm,
    pub mindrule: Option<Seq<char>>,
}

impl View for WikiAgent {
    type V = AgentModel;

    open spec fn view(&self) -> AgentModel {
        AgentModel {
            skills_root: self.skills_root@,
            work_dir: self.work_dir@,
            llm: self.llm@,
            mindrule: match self.mindrule {
                Some(rule) => Some(rule@),
                None => None,
            },
        }
    }
}

/// What the agent is told, with the given skills.
pub open spec fn told(skills: Seq<Skill>) -> Seq<char> {
    INTRODUCTION@ + prompt_block(skills)
}

/// The system prompt of an agent with this listing of its skills, or why there is none.
pub open spec fn is_prompt(
    agent: AgentModel,
    listing: SkillListing,
    r: Result<Seq<char>, Seq<char>>,
) -> bool {
    match r {
        Ok(prompt) => exists|skills: Seq<Skill>| #[trigger]
            loads(agent.skills_root, listing, Ok(skills)) && prompt == told(skills),
        Err(why) => loads(agent.skills_root, listing, Err(why)),
    }
}

/// The settings in place of the defaults of an endpoint: an empty address or model leaves the
/// default.
pub open spec fn with_settings(e: EndpointModel, llm: Llm) -> EndpointModel {
    EndpointModel {
        base_url: if llm.base_url.len() == 0 {
            e.base_url
        } else {
            llm.base_url
        },
        api_key: llm.api_key,
        model: if llm.model.len() == 0 {
            e.model
        } else {
            llm.model
        },
    }
}

/// The defaults with an agent's settings in their place.
pub open spec fn configured(base: ConfigModel, agent: AgentModel, prompt: Seq<char>) -> ConfigModel {
    ConfigModel {
        provider: agent.llm.provider,
        anthropic: if agent.llm.provider == "anthropic"@ {
            with_settings(base.anthropic, agent.llm)
        } else {
            base.anthropic
        },
        openai_compat: if agent.llm.provider == "openai_compat"@ {
            with_settings(base.openai_compat, agent.llm)
        } else {
            base.openai_compat
        },
        work_dir: agent.work_dir,
        system_prompt: prompt,
    }
}

pub open spec fn known_provider(provider: Seq<char>) -> bool {
    provider == "anthropic"@ || provider == "openai_compat"@
}

pub open spec fn unknown_provider(provider: Seq<char>) -> Seq<char> {
    "非法 MW_LLM_PROVIDER: \""@ + provider
        + "\"，仅支持 \"openai_compat\" 或 \"anthropic\""@
}

/// What configuring an agent gives: the configuration, or the first thing that is wrong, the key
/// before the provider before the skills.
pub open spec fn is_config(
    agent: AgentModel,
    base: ConfigModel,
    listing: SkillListing,
    r: Result<ConfigModel, Seq<char>>,
) -> bool {
    if agent.llm.api_key.len() == 0 {
        r == Err::<ConfigModel, Seq<char>>("环境变量 MW_LLM_API_KEY 未设置"@)
    } else if !known_provider(agent.llm.provider) {
        r == Err::<ConfigModel, Seq<char>>(unknown_provider(agent.llm.provider))
    } else {
        match r {
            Ok(c) => exists|prompt: Seq<char>| #[trigger]
                is_prompt(agent, listing, Ok(prompt)) && c == configured(base, agent, prompt),
            Err(why) => is_prompt(agent, listing, Err(why)),
        }
    }
}

/// The prompt of a chat: a persona stands before everything else.
pub open spec fn chat_prompt(prompt: Seq<char>, mindrule: Option<Seq<char>>) -> Seq<char> {
    match mindrule {
        Some(rule) => rule + PERSONA_BREAK@ + prompt + PERSONA_CHAT@,
        None => prompt + PLAIN_CHAT@,
    }
}

/// What configuring an agent for a chat gives.
pub open spec fn is_chat_config(
    agent: AgentModel,
    base: ConfigModel,
    listing: SkillListing,
    r: Result<ConfigModel, Seq<char>>,
) -> bool {
    match r {
        Ok(c) => exists|plain: ConfigModel| #[trigger]
            is_config(agent, base, listing, Ok(plain)) && c == (ConfigModel {
                system_prompt: chat_prompt(plain.system_prompt, agent.mindrule),
                ..plain
            }),
        Err(why) => is_config(agent, base, listing, Err(why)),
    }
}

pub open spec fn model_of(r: Result<AgentConfig, String>) -> Result<ConfigModel, Seq<char>> {
    match r {
        Ok(c) => Ok(c@),
        Err(why) => Err(why@),
    }
}

fn settle(e: Endpoint, llm: &LlmConfig) -> (r: Endpoint)
    ensures
        r@ == with_settings(e@, llm@),
{
    let base_url = if llm.base_url.as_str().is_empty() {
        e.base_url
    } else {
        llm.base_url.clone()
    };
    let model = if llm.model.as_str().is_empty() {
        e.model
    } else {
        llm.model.clone()
    };
    Endpoint { base_url, api_key: llm.api_key.clone(), model }
}

impl WikiAgent {
    /// An agent with the settings of the environment.
    pub fn new(skills_root: &str, work_dir: &str, env: &LlmEnv) -> (a: WikiAgent)
        ensures
            a@ == (AgentModel {
                skills_root: skills_root@,
                work_dir: work_dir@,
                llm: env_settings(*env),
                mindrule: None,
            }),
    {
        WikiAgent::with_llm(skills_root, work_dir, LlmConfig::from_env(env))
    }

    /// An agent with the given settings.
    pub fn with_llm(skills_root: &str, work_dir: &str, llm: LlmConfig) -> (a: WikiAgent)
        ensures
            a@ == (AgentModel {
                skills_root: skills_root@,
                work_dir: work_dir@,
                llm: llm@,
                mindrule: None,
            }),
    {
        WikiAgent {
            skills_root: skills_root.to_owned(),
            work_dir: work_dir.to_owned(),
            llm,
            mindrule: None,
        }
    }

    /// The agent with the given persona, or without one.
    pub fn with_mindrule(self, mindrule: Option<String>) -> (a: WikiAgent)
        ensures
            a@ == (AgentModel {
                mindrule: match mindrule {
                    Some(rule) => Some(rule@),
                    None => None,
                },
                ..self@
            }),
    {
        WikiAgent {
            skills_root: self.skills_root,
            work_dir: self.work_dir,
            llm: self.llm,
            mindrule,
        }
    }

    /// What the agent is told: how it is to work, and its skills.
    pub fn system_prompt(&self, listing: &SkillListing) -> (r: Result<String, String>)
        ensures
            is_prompt(
                self@,
                *listing,
                match r {
                    Ok(p) => Ok(p@),
                    Err(why) => Err(why@),
                },
            ),
    {
        let loader = SkillLoader::new(self.skills_root.as_str());
        match loader.system_prompt_block(listing) {
            Ok(block) => {
                let prompt = cat(INTRODUCTION, block.as_str());
                proof {
                    let skills = choose|skills: Seq<Skill>| #[trigger]
                        loads(loader.root(), *listing, Ok(skills)) && block@ == prompt_block(
                            skills,
                        );
                    assert(loads(self@.skills_root, *listing, Ok(skills)));
                    assert(prompt@ == told(skills));
                    assert(is_prompt(self@, *listing, Ok(prompt@)));
                }
                Ok(prompt)
            },
            Err(why) => Err(why),
        }
    }

    /// The configuration of the agent, over the given defaults.
    pub fn build_config(&self, base: AgentConfig, listing: &SkillListing) -> (r: Result<
        AgentConfig,
        String,
    >)
        ensures
            is_config(self@, base@, *listing, model_of(r)),
    {
        if !self.llm.ready() {
            return Err("环境变量 MW_LLM_API_KEY 未设置".to_owned());
        }
        let anthropic = same(self.llm.provider.as_str(), "anthropic");
        let openai_compat = same(self.llm.provider.as_str(), "openai_compat");
        if !anthropic && !openai_compat {
            return Err(
                cat3(
                    "非法 MW_LLM_PROVIDER: \"",
                    self.llm.provider.as_str(),
                    "\"，仅支持 \"openai_compat\" 或 \"anthropic\"",
                ),
            );
        }
        let system_prompt = match self.system_prompt(listing) {
            Ok(p) => p,
            Err(why) => {
                return Err(why);
            },
        };
        let ghost prompt = system_prompt@;
        let c = AgentConfig {
            provider: self.llm.provider.clone(),
            anthropic: if anthropic {
                settle(base.anthropic, &self.llm)
            } else {
                base.anthropic
            },
            openai_compat: if openai_compat {
                settle(base.openai_compat, &self.llm)
            } else {
                base.openai_compat
            },
            work_dir: self.work_dir.clone(),
            system_prompt,
        };
        assert(is_prompt(self@, *listing, Ok(prompt)));
        assert(c@ == configured(base@, self@, prompt));
        Ok(c)
    }

    /// The configuration of the agent for a chat: the persona first, then what the agent is told,
    /// then how the chat is to be held.
    pub fn build_chat_config(&self, base: AgentConfig, listing: &SkillListing) -> (r: Result<
        AgentConfig,
        String,
    >)
        ensures
            is_chat_config(self@, base@, *listing, model_of(r)),
    {
        let plain = match self.build_config(base, listing) {
            Ok(c) => c,
            Err(why) => {
                return Err(why);
            },
        };
        let ghost p = plain@;
        let system_prompt = match &self.mindrule {
            Some(rule) => {
                let head = cat3(rule.as_str(), PERSONA_BREAK, plain.system_prompt.as_str());
                cat(head.as_str(), PERSONA_CHAT)
            },
            None => cat(plain.system_prompt.as_str(), PLAIN_CHAT),
        };
        assert(system_prompt@ == chat_prompt(p.system_prompt, self@.mindrule));
        assert(is_config(self@, base@, *listing, Ok(p)));
        Ok(
            AgentConfig {
                provider: plain.provider,
                anthropic: plain.anthropic,
                openai_compat: plain.openai_compat,
                work_dir: plain.work_dir,
                system_prompt,
            },
        )
    }
}

/// An agent works in its own directory and with its own key, whatever the defaults are.
pub proof fn law_agent_keeps_to_its_settings(
    agent: AgentModel,
    base: ConfigModel,
    listing: SkillListing,
    c: ConfigModel,
)
    requires
        is_config(agent, base, listing, Ok(c)) || is_chat_config(agent, base, listing, Ok(c)),
    ensures
        c.work_dir == agent.work_dir,
        c.provider == agent.llm.provider,
        agent.llm.provider == "anthropic"@ ==> c.anthropic.api_key == agent.llm.api_key,
        agent.llm.provider == "openai_compat"@ ==> c.openai_compat.api_key == agent.llm.api_key,
{
    if is_chat_config(agent, base, listing, Ok(c)) {
        let plain = choose|plain: ConfigModel| #[trigger]
            is_config(agent, base, listing, Ok(plain)) && c == (ConfigModel {
                system_prompt: chat_prompt(plain.system_prompt, agent.mindrule),
                ..plain
            });
        let prompt = choose|prompt: Seq<char>| #[trigger]
            is_prompt(agent, listing, Ok(prompt)) && plain == configured(base, agent, prompt);
    } else {
        let prompt = choose|prompt: Seq<char>| #[trigger]
            is_prompt(agent, listing, Ok(prompt)) && c == configured(base, agent, prompt);
    }
}

/// What an agent is started with is its settings over the defaults: it works in its own directory; of
/// the endpoint that it reaches, the key is its own, and the address and the model are its own unless
/// they are left open; the other endpoint stays as it is; and it is told how to work and then its
/// skills, in their order.
pub proof fn law_configurations_are_settings_over_defaults(
    agent: AgentModel,
    base: ConfigModel,
    listing: SkillListing,
    c: ConfigModel,
)
    requires
        is_config(agent, base, listing, Ok(c)),
    ensures
        ({
            let llm = agent.llm;
            let (own, default, other, kept) = if llm.provider == "anthropic"@ {
                (c.anthropic, base.anthropic, c.openai_compat, base.openai_compat)
            } else {
                (c.openai_compat, base.openai_compat, c.anthropic, base.anthropic)
            };
            &&& llm.provider == "anthropic"@ || llm.provider == "openai_compat"@
            &&& llm.api_key.len() > 0
            &&& c.provider == llm.provider
            &&& c.work_dir == agent.work_dir
            &&& own.api_key == llm.api_key
            &&& own.base_url == (if llm.base_url.len() > 0 {
                llm.base_url
            } else {
                default.base_url
            })
            &&& own.model == (if llm.model.len() > 0 {
                llm.model
            } else {
                default.model
            })
            &&& other == kept
            &&& exists|skills: Seq<Skill>| #[trigger]
                loads(agent.skills_root, listing, Ok(skills)) && c.system_prompt
                    == "你是 Mind Wiki 的知识库引擎。严格遵守 skills 中的方法与铁律。\n\n铁律：当前工作目录就是知识库根目录。所有文件读写、git 操作一律在当前目录内（用相对路径）；绝不 cd 到其他目录，绝不读写当前目录之外的任何路径。技能全文已注入本提示词，无需也不应去读技能文件本身。\n"@
                    + prompt_block(skills)
        }),
{
    reveal_strlit("anthropic");
    reveal_strlit("openai_compat");
    assert("anthropic"@.len() == 9);
    assert("openai_compat"@.len() == 13);
    let prompt = choose|prompt: Seq<char>| #[trigger]
        is_prompt(agent, listing, Ok(prompt)) && c == configured(base, agent, prompt);
    let skills = choose|skills: Seq<Skill>| #[trigger]
        loads(agent.skills_root, listing, Ok(skills)) && prompt == told(skills);
}

/// An agent that cannot be started says why: it has no key, or its provider is none of the two, or its
/// skills cannot be loaded, in this order.
pub proof fn law_agents_say_why_they_cannot_start(
    agent: AgentModel,
    base: ConfigModel,
    listing: SkillListing,
    why: Seq<char>,
)
    requires
        is_config(agent, base, listing, Err(why)) || is_chat_config(agent, base, listing, Err(why)),
    ensures
        if agent.llm.api_key.len() == 0 {
            why == "环境变量 MW_LLM_API_KEY 未设置"@
        } else if agent.llm.provider != "anthropic"@ && agent.llm.provider != "openai_compat"@ {
            why == "非法 MW_LLM_PROVIDER: \""@ + agent.llm.provider
                + "\"，仅支持 \"openai_compat\" 或 \"anthropic\""@
        } else {
            loads(agent.skills_root, listing, Err(why))
        },
{
}

/// An agent for a chat is the agent, but for what it is told: its persona comes first, if it has one,
/// then what every agent is told, then how a chat is held.
pub proof fn law_chats_add_to_the_prompt(
    agent: AgentModel,
    base: ConfigModel,
    listing: SkillListing,
    c: ConfigModel,
)
    requires
        is_chat_config(agent, base, listing, Ok(c)),
    ensures
        exists|plain: ConfigModel| #[trigger]
            is_config(agent, base, listing, Ok(plain)) && c.provider == plain.provider
                && c.anthropic == plain.anthropic && c.openai_compat == plain.openai_compat
                && c.work_dir == plain.work_dir && c.system_prompt == (match agent.mindrule {
                Some(rule) => rule
                    + "\n\n===== 以下是你可调用的知识库操作技能（检索资料时用，但表达上必须内化为个人经验，绝不提及工具或知识库）=====\n"@
                    + plain.system_prompt
                    + "\n\n这是多轮对话，用 wiki-query 技能查知识库回答。"@,
                None => plain.system_prompt
                    + "\n这是多轮对话，用 wiki-query 技能查知识库回答。\n"@,
            }),
{
    let plain = choose|plain: ConfigModel| #[trigger]
        is_config(agent, base, listing, Ok(plain)) && c == (ConfigModel {
            system_prompt: chat_prompt(plain.system_prompt, agent.mindrule),
            ..plain
        });
    assert(is_config(agent, base, listing, Ok(plain)));
}

/// The model of a configuration is what it says: every setting of it, or why there is none.
pub proof fn law_configurations_are_modelled_whole(c: AgentConfig, why: String)
    ensures
        model_of(Err(why)) == Err::<ConfigModel, Seq<char>>(why@),
        model_of(Ok(c)) is Ok,
        ({
            let m = model_of(Ok(c))->Ok_0;
            &&& m.provider == c.provider@
            &&& m.work_dir == c.work_dir@
            &&& m.system_prompt == c.system_prompt@
            &&& m.anthropic.base_url == c.anthropic.base_url@
            &&& m.anthropic.api_key == c.anthropic.api_key@
            &&& m.anthropic.model == c.anthropic.model@
            &&& m.openai_compat.base_url == c.openai_compat.base_url@
            &&& m.openai_compat.api_key == c.openai_compat.api_key@
            &&& m.openai_compat.model == c.openai_compat.model@
        }),
{
}

} // verus!
