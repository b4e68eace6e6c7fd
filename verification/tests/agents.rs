use mindwiki::agent::{AgentConfig, Endpoint, WikiAgent};
use mindwiki::llm::{settings_found, LlmConfig, LlmEnv};
use mindwiki::prompts::{delete_cleanup_prompt, ingest_prompt, query_prompt};
use mindwiki::reply::{agent_event_json, AgentNews, EventPump, Field, ValueOf};
use mindwiki::skills::{SkillEntry, SkillListing, SkillLoader};

fn env(provider: Option<&str>, base: Option<&str>, key: Option<&str>, model: Option<&str>) -> LlmEnv {
    LlmEnv {
        provider: provider.map(|s| s.to_string()),
        base_url: base.map(|s| s.to_string()),
        api_key: key.map(|s| s.to_string()),
        model: model.map(|s| s.to_string()),
    }
}

fn no_env() -> LlmEnv {
    env(None, None, None, None)
}

fn skill(name: &str, markdown: &str) -> Result<SkillEntry, String> {
    Ok(SkillEntry {
        name: name.to_string(),
        path: format!("/skills/{name}"),
        is_dir: true,
        has_skill_file: true,
        markdown: Ok(markdown.to_string()),
    })
}

fn listing(entries: Vec<Result<SkillEntry, String>>) -> SkillListing {
    SkillListing { entries: Ok(entries) }
}

fn endpoint(tag: &str) -> Endpoint {
    Endpoint {
        base_url: format!("{tag}-url"),
        api_key: String::new(),
        model: format!("{tag}-model"),
    }
}

fn base() -> AgentConfig {
    AgentConfig {
        provider: "default".to_string(),
        anthropic: endpoint("a"),
        openai_compat: endpoint("o"),
        work_dir: ".".to_string(),
        system_prompt: String::new(),
    }
}

#[test]
fn loads_skill_from_dir() {
    let loader = SkillLoader::new("/skills");
    let block =
        loader.system_prompt_block(&listing(vec![skill("demo-skill", "# demo")])).unwrap();
    assert!(block.contains("demo-skill"));
    assert!(block.contains("# demo"));
    assert_eq!(block, "\n---\n# Skill: demo-skill\n# demo\n");
}

#[test]
fn skills_come_in_the_order_of_their_names() {
    let mut plain = skill("file", "x").unwrap();
    plain.is_dir = false;
    let mut bare = skill("bare", "x").unwrap();
    bare.has_skill_file = false;
    bare.markdown = Err("not there".to_string());
    let l = listing(vec![skill("b", "2"), Ok(plain), skill("a", "1"), Ok(bare), skill("B", "0")]);
    let loaded = SkillLoader::new("/skills").load_all(&l).unwrap();
    let names: Vec<&str> = loaded.iter().map(|s| s.name.as_str()).collect();
    assert_eq!(names, ["B", "a", "b"]);
    assert_eq!(loaded[1].path, "/skills/a");
    assert_eq!(loaded[1].markdown, "1");
}

#[test]
fn skills_that_cannot_be_read_stop_the_loading() {
    let loader = SkillLoader::new("/nowhere");
    let gone = SkillListing { entries: Err("No such file".to_string()) };
    assert_eq!(loader.load_all(&gone).unwrap_err(), "skills dir not readable: /nowhere");
    let mut broken = skill("b", "").unwrap();
    broken.markdown = Err("broken text".to_string());
    let l = listing(vec![skill("a", "1"), Ok(broken), Err("later".to_string())]);
    assert_eq!(loader.load_all(&l).unwrap_err(), "broken text");
    let l = listing(vec![Err("first".to_string()), skill("a", "1")]);
    assert_eq!(loader.system_prompt_block(&l).unwrap_err(), "first");
}

#[test]
fn builds_prompt_with_skills() {
    let agent = WikiAgent::new("/skills", "/w", &no_env());
    let p = agent.system_prompt(&listing(vec![skill("wiki-init", "# wiki init skill")])).unwrap();
    assert!(p.contains("Mind Wiki"));
    assert!(p.contains("wiki-init"));
    assert!(p.contains("一律在当前目录内（用相对路径）；绝不 cd 到其他目录"));
    assert!(p.ends_with("\n---\n# Skill: wiki-init\n# wiki init skill\n"));
}

#[test]
fn build_config_reads_env() {
    let e = env(
        Some("anthropic"),
        Some("https://example.com/v1"),
        Some("sk-test"),
        Some("test-model"),
    );
    let agent = WikiAgent::new("/skills", "/w", &e);
    let cfg = agent.build_config(base(), &listing(vec![])).ok().unwrap();
    assert_eq!(cfg.provider, "anthropic");
    assert_eq!(cfg.anthropic.api_key, "sk-test");
    assert_eq!(cfg.anthropic.base_url, "https://example.com/v1");
    assert_eq!(cfg.anthropic.model, "test-model");
    assert!(cfg.system_prompt.contains("Mind Wiki"));
    assert_eq!(cfg.openai_compat.model, "o-model");
    assert_eq!(cfg.openai_compat.api_key, "");
}

#[test]
fn build_config_uses_self_work_dir() {
    let agent = WikiAgent::new("/skills", "/session-work", &env(None, None, Some("sk-test"), None));
    let cfg = agent.build_config(base(), &listing(vec![])).ok().unwrap();
    assert_eq!(cfg.work_dir, "/session-work");
    assert_eq!(cfg.provider, "openai_compat");
    assert_eq!(cfg.openai_compat.base_url, "o-url");
    assert_eq!(cfg.openai_compat.model, "o-model");
    assert_eq!(cfg.openai_compat.api_key, "sk-test");
}

#[test]
fn build_config_requires_api_key() {
    let agent = WikiAgent::new("/skills", "/w", &no_env());
    let e = agent.build_config(base(), &listing(vec![])).err().unwrap();
    assert_eq!(e, "环境变量 MW_LLM_API_KEY 未设置");
}

#[test]
fn build_config_rejects_bad_provider() {
    let agent = WikiAgent::new("/skills", "/w", &env(Some("bogus"), None, Some("sk-test"), None));
    let e = agent.build_config(base(), &listing(vec![])).err().unwrap();
    assert_eq!(e, "非法 MW_LLM_PROVIDER: \"bogus\"，仅支持 \"openai_compat\" 或 \"anthropic\"");
    let gone = SkillListing { entries: Err("x".to_string()) };
    let agent = WikiAgent::new("/s", "/w", &env(None, None, Some("k"), None));
    assert_eq!(agent.build_config(base(), &gone).err().unwrap(), "skills dir not readable: /s");
}

#[test]
fn personas_stand_first_in_a_chat() {
    let agent = WikiAgent::new("/s", "/w", &env(None, None, Some("k"), None));
    let plain = agent.build_chat_config(base(), &listing(vec![])).ok().unwrap();
    assert!(plain.system_prompt.starts_with("你是 Mind Wiki"));
    assert!(plain
        .system_prompt
        .ends_with("\n这是多轮对话，用 wiki-query 技能查知识库回答。\n"));
    let agent = agent.with_mindrule(Some("RULE".to_string()));
    let with = agent.build_chat_config(base(), &listing(vec![])).ok().unwrap();
    assert!(with.system_prompt.starts_with("RULE\n\n===== 以下是你可调用的知识库操作技能"));
    assert!(with
        .system_prompt
        .ends_with("\n\n\n这是多轮对话，用 wiki-query 技能查知识库回答。"));
    assert_eq!(with.work_dir, "/w");
}

#[test]
fn llm_config_roundtrip() {
    let cfg = LlmConfig {
        provider: "openai_compat".into(),
        base_url: "https://openrouter.ai/api/v1".into(),
        api_key: "sk-or-abcdef1234".into(),
        model: "deepseek/deepseek-v4-flash".into(),
    };
    let text = cfg.save().unwrap();
    let loaded = LlmConfig::load_or_env(&Some(text), &no_env());
    assert_eq!(loaded, cfg);

    let masked = cfg.masked_key();
    assert!(!masked.contains("abcdef"));
    assert!(masked.ends_with("1234"));

    let _ = LlmConfig::load_or_env(&None, &no_env());
    let _ = LlmConfig::load_or_env(&Some("not json".to_string()), &no_env());
}

#[test]
fn saved_settings_are_indented_json() {
    let cfg = LlmConfig {
        provider: "anthropic".into(),
        base_url: "u\"\\\n中".into(),
        api_key: "k".into(),
        model: "m".into(),
    };
    let text = cfg.save().unwrap();
    let value: serde_json::Value = serde_json::from_str(&text).unwrap();
    assert_eq!(value["llm"]["provider"], "anthropic");
    assert_eq!(value["llm"]["base_url"], "u\"\\\n中");
    assert_eq!(value.as_object().unwrap().len(), 1);
    assert_eq!(value["llm"].as_object().unwrap().len(), 4);
    assert_eq!(text, serde_json::to_string_pretty(&value).unwrap());
    assert_eq!(LlmConfig::load_or_env(&Some(text), &no_env()), cfg);
}

#[test]
fn settings_fall_back_to_the_environment() {
    let e = env(None, Some("eu"), Some("ek"), None);
    let from = |text: &str| LlmConfig::load_or_env(&Some(text.to_string()), &e);
    for text in [
        "not json",
        "{}",
        "{\"llm\": 3}",
        "{\"llm\": {\"provider\": \"p\", \"base_url\": \"b\", \"api_key\": \"k\"}}",
        "{\"llm\": {\"provider\": \"p\", \"base_url\": \"b\", \"api_key\": 1, \"model\": \"m\"}}",
        "{\"llm\": [\"p\", \"b\", \"k\"]}",
        "{\"llm\": [\"p\", \"b\", \"k\", \"m\", \"x\"]}",
        "{\"llm\": [\"p\", \"b\", 3, \"m\"]}",
    ] {
        let c = from(text);
        assert_eq!(c.provider, "openai_compat", "{text}");
        assert_eq!(c.base_url, "eu");
        assert_eq!(c.api_key, "ek");
        assert_eq!(c.model, "");
    }
    let c = from(
        "{\"llm\": {\"provider\": \"p\", \"base_url\": \"b\", \"api_key\": \"k\", \"model\": \"m\", \"more\": 1}, \"x\": 2}",
    );
    assert_eq!((c.provider.as_str(), c.model.as_str()), ("p", "m"));
    let c = from("{\"llm\": [\"p\", \"b\", \"k\", \"m\"]}");
    assert_eq!((c.provider.as_str(), c.base_url.as_str()), ("p", "b"));
    assert_eq!((c.api_key.as_str(), c.model.as_str()), ("k", "m"));
}

#[test]
fn keys_are_masked() {
    let masked = |k: &str| {
        LlmConfig {
            provider: String::new(),
            base_url: String::new(),
            api_key: k.to_string(),
            model: String::new(),
        }
        .masked_key()
    };
    assert_eq!(masked(""), "");
    assert_eq!(masked("a"), "****");
    assert_eq!(masked("1234567"), "****");
    assert_eq!(masked("12345678"), "123…5678");
    assert_eq!(masked("密钥密钥密钥密钥"), "密钥密…密钥密钥");
    assert_eq!(masked("sk-AAAA-9999"), masked("sk-BBBBB-9999"));
}

#[test]
fn prompts_name_what_they_are_about() {
    assert!(ingest_prompt("inbox/upload-1.md", "页面.md")
        .starts_with("将上传文件 inbox/upload-1.md（原始文件名 页面.md）入库到知识库"));
    let p = delete_cleanup_prompt("wiki/概念A.md");
    assert!(p.starts_with("文件 wiki/概念A.md 已从知识库删除"));
    assert!(p.contains("[[概念A]]"));
    assert!(p.contains("标注\"已删除\""));
    assert_eq!(query_prompt("你好"), "使用 wiki-query 技能回答问题：你好");
}

fn shown(o: &Option<Vec<Field>>) -> Vec<(String, String)> {
    o.as_ref()
        .unwrap()
        .iter()
        .map(|f| match &f.value {
            ValueOf::Text(s) => (f.key.clone(), s.clone()),
            _ => panic!("not a text"),
        })
        .collect()
}

#[test]
fn news_are_passed_on() {
    let long = "参".repeat(100);
    let call = AgentNews::ToolCall { name: "read".into(), arguments: long.clone() };
    let o = shown(&agent_event_json(&call));
    assert_eq!(o[0], ("type".to_string(), "tool_call".to_string()));
    assert_eq!(o[1], ("name".to_string(), "read".to_string()));
    assert_eq!(o[2], ("detail".to_string(), "参".repeat(80)));
    let o = shown(&agent_event_json(&AgentNews::Message("hi".into())));
    assert_eq!(o[1], ("text".to_string(), "hi".to_string()));
    assert!(agent_event_json(&AgentNews::Other).is_none());

    let mut pump = EventPump::new();
    assert!(pump.pump(&AgentNews::Message("a".into())).is_some());
    assert!(!pump.sent_error);
    let o = shown(&pump.pump(&AgentNews::Error("bad".into())));
    assert_eq!(o[0], ("type".to_string(), "error".to_string()));
    assert_eq!(o[1], ("error".to_string(), "bad".to_string()));
    assert!(pump.pump(&AgentNews::Other).is_none());
    assert!(pump.sent_error);
}

#[test]
fn settings_are_found_in_members_or_in_a_row() {
    let t = |s: &str| Some(s.to_string());
    let row = |n: usize| Some((0..n).map(|i| format!("r{i}")).collect::<Vec<String>>());
    let c = settings_found(t("p"), t("b"), t("k"), t("m"), row(4)).unwrap();
    assert_eq!((c.provider.as_str(), c.model.as_str()), ("p", "m"));
    let c = settings_found(t("p"), None, t("k"), t("m"), row(4)).unwrap();
    assert_eq!((c.provider.as_str(), c.base_url.as_str()), ("r0", "r1"));
    assert_eq!((c.api_key.as_str(), c.model.as_str()), ("r2", "r3"));
    assert!(settings_found(t("p"), t("b"), t("k"), None, row(3)).is_none());
    assert!(settings_found(None, None, None, None, row(5)).is_none());
    assert!(settings_found(t("p"), t("b"), None, t("m"), None).is_none());
}
