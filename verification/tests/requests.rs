use mindwiki::agent::{AgentConfig, Endpoint, WikiAgent};
use mindwiki::browse::{page_reply, resolve_page};
use mindwiki::bundle::ImportRun;
use mindwiki::chat::{ChatRun, ResetRun};
use mindwiki::entry::DeleteRun;
use mindwiki::flow::{Action, ActionOf, Event};
use mindwiki::gate::{
    remote_close_result, remote_close_url, CloseRun, InitRun, OpenRun,
};
use mindwiki::gateway::{GatewayState, KernelCallOf, Unlocking};
use mindwiki::graph::{build_graph, graph_files, PageFile};
use mindwiki::import::ImportStepOf;
use mindwiki::ingest::IngestRun;
use mindwiki::llm::{LlmConfig, LlmEnv};
use mindwiki::query::QueryRun;
use mindwiki::reply::{Field, Reply, Value, ValueOf};
use mindwiki::settings::SettingsRun;
use mindwiki::skills::SkillListing;
use mindwiki::snapshot::FileMark;
use mindwiki::state::{load_state, AppState, Found};
use mindwiki::tree::{build_tree, RawEntry, RawKind, TreeNode};
use mindwiki::vault::Vault;
use std::collections::BTreeMap;
use std::io::Write as _;

/// A kernel that shifts bytes by a number made of the password and the salt.
struct Kernel {
    salt: Vec<u8>,
    key: Option<u64>,
}

fn derive(password: &str, salt: &[u8]) -> u64 {
    let mut k: u64 = 0xcbf2_9ce4_8422_2325;
    for b in password.bytes().chain(salt.iter().copied()) {
        k = (k ^ b as u64).wrapping_mul(0x100_0000_01b3);
    }
    k
}

fn fits(token: &[u8], key: u64) -> bool {
    token.len() >= 8 && token[..8] == key.to_le_bytes()
}

impl Kernel {
    fn new(salt: Vec<u8>) -> Kernel {
        Kernel { salt, key: None }
    }

    fn encrypt(&self, data: &[u8]) -> Result<Vec<u8>, String> {
        let k = self.key.ok_or("locked".to_string())?;
        let mut v = k.to_le_bytes().to_vec();
        v.extend(data.iter().map(|b| b.wrapping_add(k as u8 | 1)));
        Ok(v)
    }

    fn decrypt(&self, data: &[u8]) -> Result<Vec<u8>, String> {
        let k = self.key.ok_or("locked".to_string())?;
        if !fits(data, k) {
            return Err("decryption failed".to_string());
        }
        Ok(data[8..].iter().map(|b| b.wrapping_sub(k as u8 | 1)).collect())
    }
}

type Reaction = fn(&mut BTreeMap<String, Vec<u8>>, &str) -> Result<String, String>;

/// A disk in memory, with all that requests ask for.
struct World {
    disk: BTreeMap<String, Vec<u8>>,
    kernel: Kernel,
    scratch: Option<Kernel>,
    sessions: u32,
    upload: Option<Result<(String, Vec<u8>), Reply>>,
    env_key: Option<String>,
    /// What an agent does to the directory it works in, and what it answers.
    reaction: Reaction,
    sent_error: bool,
    seal_fails: bool,
    prompts: Vec<String>,
    agents: Vec<String>,
}

/// What a request came to.
struct End {
    /// The status, or none where a stream was ended.
    status: Option<u16>,
    body: Option<Vec<Field>>,
    streamed: bool,
    trace: Vec<&'static str>,
}

impl End {
    fn get(&self, key: &str) -> Option<&Value> {
        self.body.as_ref()?.iter().find(|f| f.key == key).map(|f| &f.value)
    }

    fn text(&self, key: &str) -> String {
        match self.get(key) {
            Some(ValueOf::Text(s)) => s.clone(),
            _ => panic!("no text {key}"),
        }
    }

    fn texts(&self, key: &str) -> Vec<String> {
        match self.get(key) {
            Some(ValueOf::Texts(v)) => v.clone(),
            _ => panic!("no texts {key}"),
        }
    }

    fn flag(&self, key: &str) -> Option<bool> {
        match self.get(key) {
            Some(ValueOf::Flag(b)) => Some(*b),
            _ => None,
        }
    }

    fn count(&self, key: &str) -> u64 {
        match self.get(key) {
            Some(ValueOf::Count(n)) => *n,
            _ => panic!("no count {key}"),
        }
    }
}

fn entries(disk: &BTreeMap<String, Vec<u8>>, dir: &str) -> Vec<RawEntry> {
    let mut out: Vec<RawEntry> = Vec::new();
    let prefix = format!("{}/", dir.trim_end_matches('/'));
    for path in disk.keys() {
        if let Some(rest) = path.strip_prefix(&prefix) {
            let name = rest.split('/').next().unwrap().to_string();
            if out.iter().any(|e| e.name == name) {
                continue;
            }
            let kind = if rest.contains('/') {
                RawKind::Dir(entries(disk, &format!("{prefix}{name}")))
            } else {
                RawKind::File
            };
            out.push(RawEntry { name, kind });
        }
    }
    out
}

fn put(v: &mut Vec<u8>, data: &[u8]) {
    v.extend((data.len() as u32).to_le_bytes());
    v.extend(data);
}

fn take(v: &[u8], at: &mut usize) -> Vec<u8> {
    let n = u32::from_le_bytes(v[*at..*at + 4].try_into().unwrap()) as usize;
    let data = v[*at + 4..*at + 4 + n].to_vec();
    *at += 4 + n;
    data
}

fn remove_dir(disk: &mut BTreeMap<String, Vec<u8>>, dir: &str) {
    let prefix = format!("{dir}/");
    disk.retain(|p, _| !p.starts_with(&prefix));
}

fn defaults() -> AgentConfig {
    let e = || Endpoint {
        base_url: "url".to_string(),
        api_key: String::new(),
        model: "model".to_string(),
    };
    AgentConfig {
        provider: String::new(),
        anthropic: e(),
        openai_compat: e(),
        work_dir: String::new(),
        system_prompt: String::new(),
    }
}

impl World {
    fn new() -> World {
        World {
            disk: BTreeMap::new(),
            kernel: Kernel::new(vec![0; 16]),
            scratch: None,
            sessions: 0,
            upload: None,
            env_key: None,
            reaction: |_, _| Err("unreachable model".to_string()),
            sent_error: false,
            seal_fails: false,
            prompts: Vec::new(),
            agents: Vec::new(),
        }
    }

    fn env(&self) -> LlmEnv {
        LlmEnv { provider: None, base_url: None, api_key: self.env_key.clone(), model: None }
    }

    fn text(&self, path: &str) -> Option<String> {
        self.disk.get(path).map(|b| String::from_utf8(b.clone()).unwrap())
    }

    fn write(&mut self, path: &str, text: &str) {
        self.disk.insert(path.to_string(), text.as_bytes().to_vec());
    }

    fn pack(&self, dir: &str) -> Vec<u8> {
        let prefix = format!("{dir}/");
        let mut v = Vec::new();
        for (path, data) in &self.disk {
            if let Some(rel) = path.strip_prefix(&prefix) {
                put(&mut v, rel.as_bytes());
                put(&mut v, data);
            }
        }
        v
    }

    fn commit(&mut self, dir: &str, message: &str) {
        let path = format!("{dir}/.git/log");
        let log = self.text(&path).unwrap_or_default();
        self.write(&path, &format!("{message}\n{log}"));
    }

    fn call(&mut self, call: KernelCallOf<String, Vec<u8>>) -> Event {
        let kernel = self.scratch.as_mut().unwrap_or(&mut self.kernel);
        match call {
            KernelCallOf::Unlock { password } => {
                kernel.key = Some(derive(&password, &kernel.salt));
                Event::Unlocked { attempt: Unlocking::Derived, unlocked: true }
            }
            KernelCallOf::UnlockWithVerify { password, token } => {
                let k = derive(&password, &kernel.salt);
                let ok = fits(&token, k);
                if ok {
                    kernel.key = Some(k);
                }
                Event::Unlocked {
                    attempt: Unlocking::Tried(Ok(ok)),
                    unlocked: kernel.key.is_some(),
                }
            }
            KernelCallOf::GenerateToken => Event::Bytes(kernel.encrypt(b"token")),
            KernelCallOf::Encrypt(data) => Event::Bytes(kernel.encrypt(&data)),
            KernelCallOf::Decrypt(data) => Event::Bytes(kernel.decrypt(&data)),
            KernelCallOf::Lock => {
                kernel.key = None;
                Event::Ready
            }
        }
    }

    fn open_session(&mut self, app: &AppState) -> Result<(String, String), String> {
        let container =
            self.disk.get(&app.vault.container_path()).cloned().ok_or("no container".to_string());
        let packed = match self.call(app.vault.open_session(&app.gateway, container)?) {
            Event::Bytes(r) => r?,
            _ => unreachable!(),
        };
        self.sessions += 1;
        let dir = format!("/tmp/session-{}", self.sessions);
        let mut at = 0;
        while at < packed.len() {
            let rel = String::from_utf8(take(&packed, &mut at)).unwrap();
            let data = take(&packed, &mut at);
            self.disk.insert(format!("{dir}/{rel}"), data);
        }
        Ok((format!("s{}", self.sessions), dir))
    }

    fn seal(&mut self, app: &AppState, dir: &str) -> Result<(), String> {
        if self.seal_fails {
            return Err("disk full".to_string());
        }
        let packed = self.pack(dir);
        let payload = match self.call(app.seal_session(Ok(packed))?) {
            Event::Bytes(r) => r?,
            _ => unreachable!(),
        };
        let data = app.vault.seal_payload(&app.gateway, payload)?;
        self.disk.insert(app.vault.container_path(), data);
        Ok(())
    }

    fn answer(&mut self, agent: &WikiAgent, prompt: String) -> Event {
        self.prompts.push(prompt);
        self.agents.push(format!("{} {}", agent.work_dir, agent.llm.api_key));
        let result = (self.reaction)(&mut self.disk, &agent.work_dir);
        Event::Answered { result, sent_error: self.sent_error }
    }

    fn resolve(&self, root: &str, rel: &str) -> Option<String> {
        let path = format!("{root}/{rel}");
        let names: Vec<&str> = path.split('/').filter(|n| !n.is_empty() && *n != ".").collect();
        let path = format!("/{}", names.join("/"));
        let below = format!("{path}/");
        let there = self.disk.contains_key(&path) || self.disk.keys().any(|p| p.starts_with(&below));
        if there {
            Some(path)
        } else {
            None
        }
    }

    /// Does what is asked for.
    fn act(&mut self, app: &AppState, action: Action) -> Event {
        match action {
            ActionOf::StartStream
            | ActionOf::LockVault
            | ActionOf::ShareSession
            | ActionOf::LockSession
            | ActionOf::LockChat => Event::Ready,
            ActionOf::Probe(path) => Event::Present(
                if self.disk.contains_key(&path) { vec![path] } else { vec![] },
            ),
            ActionOf::Kernel(call) => self.call(call),
            ActionOf::Upload => Event::Uploaded(self.upload.take().unwrap()),
            ActionOf::LoadLlm(path) => Event::Llm { file: self.text(&path), env: self.env() },
            ActionOf::OpenSession { discard } => {
                if let Some(dir) = discard {
                    remove_dir(&mut self.disk, &dir);
                }
                Event::Opened(self.open_session(app))
            }
            ActionOf::Discard(dir) => {
                if let Some(dir) = dir {
                    remove_dir(&mut self.disk, &dir);
                }
                Event::Ready
            }
            ActionOf::Mark(dir) => {
                let prefix = format!("{dir}/");
                let marks = self
                    .disk
                    .iter()
                    .filter_map(|(p, data)| {
                        let rel = p.strip_prefix(&prefix)?;
                        Some(FileMark::new(rel.split('/').map(|s| s.to_string()).collect(), data))
                    })
                    .collect();
                Event::Marks(marks)
            }
            ActionOf::Clock => Event::Time(1_700_000_000_123),
            ActionOf::Store { path, data } => {
                self.disk.insert(path, data);
                Event::Done(Ok(()))
            }
            ActionOf::Ask { agent, prompt, stream: _ } => self.answer(&agent, prompt),
            ActionOf::Seal(dir) => Event::Done(self.seal(app, &dir)),
            ActionOf::Commit { work_dir, message } => {
                self.commit(&work_dir, &message);
                Event::Done(Ok(()))
            }
            ActionOf::Resolve { root, rel } => {
                let target = self.resolve(&root, &rel);
                Event::Resolved { root: Ok(root), target }
            }
            ActionOf::Scan(path) => {
                let kind = if self.disk.contains_key(&path) {
                    RawKind::File
                } else {
                    RawKind::Dir(entries(&self.disk, &path))
                };
                Event::Scanned(RawEntry { name: String::new(), kind })
            }
            ActionOf::Remove { target, tree } => {
                if tree {
                    remove_dir(&mut self.disk, &target);
                } else {
                    self.disk.remove(&target).unwrap();
                }
                Event::Done(Ok(()))
            }
            ActionOf::Import(step) => {
                if let ImportStepOf::WriteFile { path, data } = step {
                    self.disk.insert(path, data);
                    return Event::Done(Ok(()));
                }
                Event::Done(match step {
                    ImportStepOf::MakeParent(_) => Err("ignored".to_string()),
                    _ => Ok(()),
                })
            }
            ActionOf::ReadText(path) => Event::Text(self.text(&path)),
            ActionOf::CreateChat(agent) => {
                let listing = SkillListing { entries: Ok(vec![]) };
                match agent.build_chat_config(defaults(), &listing) {
                    Ok(c) => {
                        self.prompts.push(c.system_prompt);
                        Event::Done(Ok(()))
                    }
                    Err(e) => Event::Done(Err(e)),
                }
            }
            ActionOf::Send(message) => {
                self.prompts.push(message);
                let result = (self.reaction)(&mut self.disk, "");
                Event::Answered { result, sent_error: self.sent_error }
            }
            ActionOf::Save { path, text } => {
                self.write(&path, &text);
                Event::Done(Ok(()))
            }
            ActionOf::NewKernel => {
                self.scratch = Some(Kernel::new(vec![42; 16]));
                Event::Bytes(Ok(vec![42; 16]))
            }
            ActionOf::PackEmpty => Event::Bytes(Ok(vec![])),
            ActionOf::WriteContainer { path, data } => {
                self.disk.insert(path, data);
                Event::Done(Ok(()))
            }
            ActionOf::ReadContainer(path) => {
                Event::Bytes(self.disk.get(&path).cloned().ok_or("gone".to_string()))
            }
            ActionOf::LoadKernel(salt) => {
                self.scratch = None;
                self.kernel = Kernel::new(salt);
                Event::Ready
            }
            ActionOf::EnsureAdminToken(path) => {
                self.write(&path, "tok-1");
                Event::Token(Ok("tok-1".to_string()))
            }
            ActionOf::Respond { .. } | ActionOf::Finish(_) | ActionOf::Misfit => unreachable!(),
        }
    }

    /// Works a request off.
    fn run(
        &mut self,
        app: &mut AppState,
        mut next: impl FnMut(&mut AppState, Event) -> Action,
    ) -> End {
        let mut ev = Event::Start;
        let mut streamed = false;
        let mut trace = Vec::new();
        loop {
            let action = next(app, ev);
            trace.push(label(&action));
            match action {
                ActionOf::Respond { status, body } => {
                    return End { status: Some(status), body: Some(body), streamed, trace };
                }
                ActionOf::Finish(body) => return End { status: None, body, streamed, trace },
                ActionOf::Misfit => panic!("misfit after {trace:?}"),
                ActionOf::StartStream => {
                    streamed = true;
                    ev = Event::Ready;
                }
                other => ev = self.act(app, other),
            }
        }
    }
}

fn label(a: &Action) -> &'static str {
    match a {
        ActionOf::Seal(_) => "seal",
        ActionOf::Commit { .. } => "commit",
        ActionOf::Remove { .. } => "remove",
        ActionOf::OpenSession { .. } => "open",
        ActionOf::Discard(_) => "discard",
        ActionOf::Ask { .. } => "ask",
        ActionOf::Kernel(KernelCallOf::Lock) => "lock",
        ActionOf::Respond { .. } => "respond",
        ActionOf::Finish(_) => "finish",
        ActionOf::LockChat => "lock chat",
        _ => "-",
    }
}

fn start(world: &mut World) -> AppState {
    let vault = Vault::open("/v").ok().unwrap();
    let path = vault.container_path();
    let found = Found {
        present: if world.disk.contains_key(&path) { vec![path.clone()] } else { vec![] },
        container: world.disk.get(&path).cloned().ok_or("none".to_string()),
        admin_token: Ok("tok-1".to_string()),
        salt: Ok(vec![1; 16]),
        config: world.text("/v/appconfig.json"),
        env: world.env(),
    };
    load_state(vault, "/skills", found).ok().unwrap()
}

fn init(world: &mut World, app: &mut AppState, password: &str) -> End {
    let mut run = InitRun::new(password.to_string());
    world.run(app, |a, e| run.next(a, e))
}

fn open(world: &mut World, app: &mut AppState, password: &str) -> End {
    let mut run = OpenRun::new(password.to_string());
    world.run(app, |a, e| run.next(a, e))
}

fn close(world: &mut World, app: &mut AppState, token: &str) -> End {
    let mut run = CloseRun::new(token.to_string(), "stamp".to_string());
    world.run(app, |a, e| run.next(a, e))
}

fn delete(world: &mut World, app: &mut AppState, path: &str, mode: &str) -> End {
    let mut run = DeleteRun::new(path.to_string(), mode.to_string());
    world.run(app, |a, e| run.next(a, e))
}

fn query(world: &mut World, app: &mut AppState, question: &str) -> End {
    let mut run = QueryRun::new(question.to_string());
    world.run(app, |a, e| run.next(a, e))
}

fn chat(world: &mut World, app: &mut AppState, message: &str) -> End {
    let mut run = ChatRun::new(message.to_string());
    world.run(app, |a, e| run.next(a, e))
}

fn reset(world: &mut World, app: &mut AppState) -> End {
    let mut run = ResetRun::new();
    world.run(app, |a, e| run.next(a, e))
}

fn settings(world: &mut World, app: &mut AppState, llm: [&str; 4]) -> End {
    let mut run = SettingsRun::new(LlmConfig {
        provider: llm[0].to_string(),
        base_url: llm[1].to_string(),
        api_key: llm[2].to_string(),
        model: llm[3].to_string(),
    });
    world.run(app, |a, e| run.next(a, e))
}

fn ingest(world: &mut World, app: &mut AppState, stream: bool) -> End {
    let mut run = IngestRun::new(stream);
    world.upload = Some(Ok(("test.md".to_string(), "# 测试\n\n[[页面甲]]\n".into())));
    world.run(app, |a, e| run.next(a, e))
}

fn import(world: &mut World, app: &mut AppState, zip: Vec<u8>) -> End {
    let mut run = ImportRun::new();
    world.upload = Some(Ok(("wiki.zip".to_string(), zip)));
    world.run(app, |a, e| run.next(a, e))
}

fn make_zip(files: &[(&str, &str)]) -> Vec<u8> {
    let mut w = zip::ZipWriter::new(std::io::Cursor::new(Vec::new()));
    let opts = zip::write::SimpleFileOptions::default();
    for (name, content) in files {
        w.start_file(*name, opts).unwrap();
        w.write_all(content.as_bytes()).unwrap();
    }
    w.finish().unwrap().into_inner()
}

const CONFIG: &str = "{\"llm\": {\"provider\": \"openai_compat\", \"base_url\": \"http://127.0.0.1:1\", \"api_key\": \"sk-dummy-9999\", \"model\": \"test-model\"}}";

/// A locked vault with the password `pw-A`.
fn locked() -> (World, AppState) {
    let mut world = World::new();
    let mut app = start(&mut world);
    assert_eq!(init(&mut world, &mut app, "pw-A").status, Some(200));
    let app = start(&mut world);
    (world, app)
}

/// An unlocked vault, and settings of a model that cannot be reached.
fn unlocked_with_model() -> (World, AppState) {
    let (mut world, _) = locked();
    world.write("/v/appconfig.json", CONFIG);
    let mut app = start(&mut world);
    assert_eq!(open(&mut world, &mut app, "pw-A").status, Some(200));
    (world, app)
}

fn work(app: &AppState) -> String {
    app.session_dir().unwrap()
}

fn tree(world: &World, app: &AppState) -> String {
    let dir = app.browse_work_dir().ok().unwrap();
    let mut out = Vec::new();
    list(&build_tree(&entries(&world.disk, &dir)), &mut out);
    out.join(" ")
}

fn list(node: &TreeNode, out: &mut Vec<String>) {
    out.push(node.path.clone());
    for c in node.children.iter().flatten() {
        list(c, out);
    }
}

fn edges(world: &World, app: &AppState) -> (usize, Vec<(String, String)>) {
    let dir = app.browse_work_dir().ok().unwrap();
    let index = world.disk.contains_key(&format!("{dir}/index.md"));
    let files = graph_files(index, &entries(&world.disk, &format!("{dir}/wiki")));
    let pages: Vec<PageFile> = files
        .into_iter()
        .map(|path| PageFile {
            content: world.text(&format!("{dir}/{}", path.join("/"))).unwrap(),
            path,
        })
        .collect();
    let g = build_graph(&pages);
    (g.nodes.len(), g.edges.into_iter().map(|e| (e.from, e.to)).collect())
}

fn seed(world: &mut World, app: &AppState, files: &[(&str, &str)]) {
    let dir = work(app);
    for (rel, content) in files {
        world.write(&format!("{dir}/{rel}"), content);
    }
    world.commit(&dir, "seed");
}

fn log(world: &World, app: &AppState) -> String {
    world.text(&format!("{}/.git/log", work(app))).unwrap_or_default()
}

fn reopen(world: &mut World, app: &mut AppState) {
    assert_eq!(close(world, app, "tok-1").status, Some(200));
    assert_eq!(open(world, app, "pw-A").status, Some(200));
}

#[test]
fn vault_roundtrip() {
    let (mut world, mut app) = locked();
    assert_eq!(open(&mut world, &mut app, "pw-A").status, Some(200));
    seed(&mut world, &app, &[("secret.md", "TOPSECRET v1"), ("notes/a.md", "note A")]);
    let dir = work(&app);
    world.seal(&app, &dir).unwrap();
    reopen(&mut world, &mut app);
    let dir = work(&app);
    world.write(&format!("{dir}/secret.md"), "TOPSECRET v2");
    world.commit(&dir, "update secret");
    world.seal(&app, &dir).unwrap();
    reopen(&mut world, &mut app);
    let dir = work(&app);
    assert_eq!(world.text(&format!("{dir}/secret.md")).unwrap(), "TOPSECRET v2");
    assert_eq!(world.text(&format!("{dir}/notes/a.md")).unwrap(), "note A");
    assert_eq!(log(&world, &app), "update secret\nseed\n");
}

#[test]
fn disk_is_ciphertext() {
    let (mut world, mut app) = locked();
    open(&mut world, &mut app, "pw-A");
    seed(&mut world, &app, &[("secret.md", "TOPSECRET")]);
    let dir = work(&app);
    world.seal(&app, &dir).unwrap();
    let data = &world.disk["/v/vault.mwenc"];
    assert!(!data.windows(9).any(|w| w == b"TOPSECRET"));
    assert!(!data.windows(9).any(|w| w == b"secret.md"));
}

#[test]
fn llm_config_endpoint_gated() {
    let (mut world, mut app) = locked();
    assert_eq!(app.llm_report().status, 423);
    let good = ["openai_compat", "https://x", "k", "m"];
    assert_eq!(settings(&mut world, &mut app, good).status, Some(423));

    assert_eq!(open(&mut world, &mut app, "pw-A").status, Some(200));
    let no_key = ["openai_compat", "https://x", "", "m"];
    assert_eq!(settings(&mut world, &mut app, no_key).status, Some(400));
    let bogus = ["bogus", "https://x", "k", "m"];
    assert_eq!(settings(&mut world, &mut app, bogus).status, Some(400));

    app.chat = true;
    let real = [
        "openai_compat",
        " https://openrouter.ai/api/v1 ",
        "sk-or-abcd1234\n",
        "deepseek/deepseek-v4-flash",
    ];
    let end = settings(&mut world, &mut app, real);
    assert_eq!(end.status, Some(200));
    assert_eq!(end.flag("saved"), Some(true));
    assert_eq!(app.llm.api_key, "sk-or-abcd1234");
    assert!(!app.chat);
    let saved = LlmConfig::load_or_env(&world.text("/v/appconfig.json"), &world.env());
    assert_eq!(saved, app.llm);

    let r = app.llm_report();
    assert_eq!(r.status, 200);
    let r = End { status: Some(200), body: Some(r.body), streamed: false, trace: vec![] };
    assert_eq!(r.text("provider"), "openai_compat");
    assert_eq!(r.text("base_url"), "https://openrouter.ai/api/v1");
    assert_eq!(r.text("model"), "deepseek/deepseek-v4-flash");
    let masked = r.text("api_key_masked");
    assert!(!masked.contains("abcd"));
    assert!(masked.ends_with("1234"));
    assert!(r.get("api_key").is_none());
}

#[test]
fn ingest_stream_endpoint() {
    let (mut world, mut app) = unlocked_with_model();
    let end = ingest(&mut world, &mut app, true);
    assert!(end.streamed);
    assert_eq!(end.status, None);
    assert_eq!(end.text("type"), "error");
    assert_eq!(end.text("error"), "unreachable model");
    world.sent_error = true;
    let end = ingest(&mut world, &mut app, true);
    assert!(end.body.is_none());
    world.sent_error = false;
    world.reaction = |disk, dir| {
        disk.insert(format!("{dir}/wiki/页面甲.md"), b"x".to_vec());
        Ok("fine".to_string())
    };
    let end = ingest(&mut world, &mut app, true);
    assert_eq!(end.text("type"), "done");
    assert_eq!(end.text("answer"), "fine");
    assert_eq!(end.texts("files"), ["wiki/页面甲.md"]);
    world.seal_fails = true;
    let end = ingest(&mut world, &mut app, true);
    assert_eq!(end.text("error"), "封印失败：disk full");
}

#[test]
fn ingestion_stores_asks_and_seals() {
    let (mut world, mut app) = unlocked_with_model();
    let end = ingest(&mut world, &mut app, false);
    assert_eq!(end.status, Some(500));
    assert_eq!(end.text("error"), "Agent 入库失败：unreachable model");
    world.reaction = |disk, dir| {
        assert!(disk.contains_key(&format!("{dir}/inbox/upload-1700000000123.md")));
        disk.insert(format!("{dir}/index.md"), b"# i".to_vec());
        Ok("done".to_string())
    };
    let end = ingest(&mut world, &mut app, false);
    assert_eq!(end.status, Some(200));
    assert_eq!(end.text("answer"), "done");
    assert_eq!(end.texts("files"), ["index.md"]);
    assert!(world
        .prompts
        .last()
        .unwrap()
        .starts_with("将上传文件 inbox/upload-1700000000123.md（原始文件名 test.md）"));
    assert_eq!(world.agents.last().unwrap(), &format!("{} sk-dummy-9999", work(&app)));
    reopen(&mut world, &mut app);
    assert!(tree(&world, &app).contains("index.md"));
    let dir = work(&app);
    world.disk.remove(&format!("{dir}/inbox/upload-1700000000123.md"));
    let end = ingest(&mut world, &mut app, false);
    assert_eq!(end.texts("files"), ["inbox/upload-1700000000123.md"]);
    app.current_session = None;
    let end = ingest(&mut world, &mut app, false);
    assert_eq!(end.status, Some(200));
    assert!(app.current_session.is_some());
    world.disk.remove("/v/vault.mwenc");
    app.current_session = None;
    let end = ingest(&mut world, &mut app, false);
    assert_eq!(end.status, Some(423));
    assert_eq!(end.text("error"), "打开解密会话失败：no container");
    let end = ingest(&mut world, &mut app, true);
    assert_eq!(end.text("error"), "打开解密会话失败");
}

#[test]
fn chat_requires_unlock() {
    let (mut world, _) = locked();
    world.write("/v/appconfig.json", CONFIG);
    let mut app = start(&mut world);
    assert_eq!(chat(&mut world, &mut app, "你好").status, Some(423));
    assert_eq!(reset(&mut world, &mut app).status, Some(423));
}

#[test]
fn chat_reset_clears() {
    let (mut world, mut app) = unlocked_with_model();
    app.chat = true;
    let end = reset(&mut world, &mut app);
    assert_eq!(end.status, Some(200));
    assert_eq!(end.flag("reset"), Some(true));
    assert!(!app.chat);
}

#[test]
fn chats_go_on_until_they_are_reset() {
    let (mut world, mut app) = unlocked_with_model();
    world.reaction = |_, _| Ok("hi".to_string());
    world.write("/v/mindrule.txt", "PERSONA");
    assert_eq!(chat(&mut world, &mut app, " \n").status, Some(400));
    let end = chat(&mut world, &mut app, "你好");
    assert_eq!(end.text("type"), "done");
    assert_eq!(end.text("answer"), "hi");
    assert!(app.chat);
    assert!(world.prompts[0].starts_with("PERSONA\n\n====="));
    assert_eq!(world.prompts[1], "你好");
    chat(&mut world, &mut app, "还在吗");
    assert_eq!(world.prompts.len(), 3);
    world.reaction = |_, _| Err("broken".to_string());
    assert_eq!(chat(&mut world, &mut app, "x").text("error"), "broken");
    reset(&mut world, &mut app);
    app.current_session = None;
    world.disk.remove("/v/vault.mwenc");
    assert_eq!(chat(&mut world, &mut app, "x").text("error"), "打开解密会话失败");
    assert!(!app.chat);
}

#[test]
fn remote_close_endpoint() {
    let (mut world, mut app) = locked();
    assert_eq!(app.gateway.state(), GatewayState::Closed);
    assert_eq!(open(&mut world, &mut app, "pw-A").status, Some(200));

    let end = close(&mut world, &mut app, "wrong");
    assert_eq!(end.status, Some(403));
    let report = |app: &AppState| {
        let r = app.gate_report();
        End { status: Some(r.status), body: Some(r.body), streamed: false, trace: vec![] }
    };
    assert_eq!(report(&app).text("state"), "open");
    assert!(matches!(report(&app).get("closed_at"), Some(ValueOf::Null)));
    assert_eq!(report(&app).count("active_sessions"), 1);

    let end = close(&mut world, &mut app, "tok-1");
    assert_eq!(end.status, Some(200));
    assert_eq!(end.text("state"), "closed");
    assert_eq!(end.trace, ["lock", "-", "discard", "lock chat", "respond"]);
    assert_eq!(report(&app).text("state"), "closed");
    assert_eq!(report(&app).text("closed_at"), "stamp");
    assert_eq!(report(&app).count("active_sessions"), 0);

    assert_eq!(remote_close_url("h:7901"), "http://h:7901/api/gateway/close");
    assert!(remote_close_result(200, "200 OK").is_ok());
    assert!(remote_close_result(204, "204 No Content").is_ok());
    assert_eq!(
        remote_close_result(403, "403 Forbidden").unwrap_err(),
        "remote close rejected: invalid admin token"
    );
    assert_eq!(
        remote_close_result(500, "500 Internal Server Error").unwrap_err(),
        "remote close failed: HTTP 500 Internal Server Error"
    );
    assert!(remote_close_result(300, "300").is_err());
}

#[test]
fn webui_served() {
    let mut world = World::new();
    let app = start(&mut world);
    let r = app.vault_report(&vec![], 77);
    let r = End { status: Some(r.status), body: Some(r.body), streamed: false, trace: vec![] };
    assert_eq!(r.flag("exists"), Some(false));
    assert_eq!(r.text("state"), "sealed");
    assert_eq!(r.count("size"), 0);
}

#[test]
fn full_loop_e2e() {
    let mut world = World::new();
    let mut app = start(&mut world);
    assert_eq!(init(&mut world, &mut app, "").status, Some(400));
    assert_eq!(open(&mut world, &mut app, "test").status, Some(409));
    let end = init(&mut world, &mut app, "test");
    assert_eq!(end.status, Some(200));
    assert_eq!(end.flag("created"), Some(true));
    assert_eq!(end.text("container"), "/v/vault.mwenc");
    assert_eq!(app.gateway.state(), GatewayState::Closed);
    assert!(app.gateway.verify_token().is_some());
    assert_eq!(app.admin_token, "tok-1");
    assert_eq!(init(&mut world, &mut app, "test").status, Some(409));
    assert_eq!(open(&mut world, &mut app, "test").status, Some(200));

    let r = app.vault_report(&vec!["/v/vault.mwenc".to_string()], 10);
    let r = End { status: Some(r.status), body: Some(r.body), streamed: false, trace: vec![] };
    assert_eq!(r.flag("exists"), Some(true));
    assert!(r.count("size") > 0);
    assert_eq!(r.text("state"), "open");

    let token = world.text("/v/admin.token").unwrap();
    assert_eq!(close(&mut world, &mut app, &token).status, Some(200));
    let end = query(&mut world, &mut app, "你好");
    assert_eq!(end.status, Some(503));
    assert!(end.text("error").contains("MW_LLM_API_KEY"));
    world.env_key = Some("sk-dummy".to_string());
    assert_eq!(query(&mut world, &mut app, "你好").status, Some(423));
    assert_eq!(app.llm.api_key, "sk-dummy");
}

#[test]
fn wrong_passwords_open_nothing() {
    let (mut world, mut app) = locked();
    let end = open(&mut world, &mut app, "pw-B");
    assert_eq!(end.status, Some(403));
    assert_eq!(end.text("error"), "wrong password");
    assert!(app.current_session.is_none());
    assert_eq!(app.gateway.state(), GatewayState::Closed);
}

#[test]
fn sessions_replace_one_another() {
    let (mut world, mut app) = unlocked_with_model();
    let first = work(&app);
    world.write(&format!("{first}/a.md"), "a");
    assert_eq!(open(&mut world, &mut app, "pw-A").status, Some(200));
    let second = work(&app);
    assert_ne!(first, second);
    assert!(!world.disk.keys().any(|p| p.starts_with(&first)));
    assert_eq!(app.gateway.active_sessions(), 1);
    import(&mut world, &mut app, make_zip(&[("b.md", "b")]));
    assert_eq!(app.gateway.active_sessions(), 1);
    assert!(!world.disk.keys().any(|p| p.starts_with(&second)));
    delete(&mut world, &mut app, "b.md", "quick");
    assert_eq!(app.gateway.active_sessions(), 1);
}

#[test]
fn creating_a_vault_anew_leaves_no_session() {
    let (mut world, mut app) = unlocked_with_model();
    assert_eq!(app.gateway.active_sessions(), 1);
    world.disk.remove("/v/vault.mwenc");
    assert_eq!(init(&mut world, &mut app, "pw-B").status, Some(200));
    assert_eq!(app.gateway.active_sessions(), 0);
    assert_eq!(open(&mut world, &mut app, "pw-B").status, Some(200));
    assert_eq!(app.gateway.active_sessions(), 1);
}

#[test]
fn browse_requires_unlock() {
    let (_, app) = locked();
    assert_eq!(app.browse_work_dir().err().unwrap().status, 423);
}

#[test]
fn open_creates_session_close_destroys() {
    let (mut world, mut app) = locked();
    assert!(app.current_session.is_none());
    assert_eq!(open(&mut world, &mut app, "pw-A").status, Some(200));
    let dir = work(&app);
    world.write(&format!("{dir}/index.md"), "# 首页 [[页面甲]]");
    world.write(&format!("{dir}/wiki/页面甲.md"), "---\ntype: concept\n---\n# 页面甲");
    assert!(tree(&world, &app).contains("页面甲.md"));
    let target = world.resolve(&dir, "wiki/页面甲.md");
    let path = resolve_page(Ok(dir.clone()), "wiki/页面甲.md", target, true).ok().unwrap();
    let page = page_reply("wiki/页面甲.md", Ok(world.text(&path).unwrap()));
    let page = End { status: Some(200), body: Some(page.body), streamed: false, trace: vec![] };
    assert!(page.text("content").contains("页面甲"));
    let (nodes, links) = edges(&world, &app);
    assert_eq!(nodes, 2);
    assert_eq!(links.len(), 1);
    assert_eq!(
        resolve_page(Ok(dir.clone()), "../etc/passwd", None, false).err().unwrap().status,
        400
    );

    assert_eq!(close(&mut world, &mut app, "tok-1").status, Some(200));
    assert!(app.current_session.is_none());
    assert!(!world.disk.keys().any(|p| p.starts_with(&dir)));
    assert_eq!(app.browse_work_dir().err().unwrap().status, 423);
}

#[test]
fn import_zip_roundtrip() {
    let (mut world, mut app) = unlocked_with_model();
    app.chat = true;
    let zip = make_zip(&[
        ("wiki/A.md", "# A\n\n链接到 [[B]]\n"),
        ("wiki/B.md", "# B\n"),
        ("sources/x.md", "# X\n"),
        (".git/junk", "junk"),
        (".obsidian/config", "{}"),
    ]);
    let end = import(&mut world, &mut app, zip);
    assert_eq!(end.status, Some(200));
    assert_eq!(end.flag("committed"), Some(true));
    let imported = end.texts("imported");
    assert_eq!(imported.len(), 3);
    assert!(imported.contains(&"wiki/A.md".to_string()));
    assert!(imported.contains(&"sources/x.md".to_string()));
    let skipped = end.texts("skipped");
    assert!(skipped.contains(&".git/junk".to_string()));
    assert!(skipped.contains(&".obsidian/config".to_string()));
    assert!(!app.chat);

    let s = tree(&world, &app);
    assert!(s.contains("A.md"));
    assert!(s.contains("x.md"));
    assert!(!s.contains(".git"));
    assert!(!s.contains(".obsidian"));
    assert!(edges(&world, &app).1.contains(&("wiki/A.md".into(), "wiki/B.md".into())));
    assert!(log(&world, &app).contains("Import wiki bundle: 3 files"));

    reopen(&mut world, &mut app);
    let s = tree(&world, &app);
    assert!(s.contains("A.md"));
    assert!(s.contains("x.md"));
}

#[test]
fn import_rejects_path_traversal() {
    let (mut world, mut app) = unlocked_with_model();
    let zip = make_zip(&[("wiki/ok.md", "# ok\n"), ("../../etc/evil", "evil")]);
    let end = import(&mut world, &mut app, zip);
    assert_eq!(end.status, Some(400));
    assert!(end.text("error").contains("etc/evil"));
    assert!(!end.trace.contains(&"seal"));
    assert!(!world.disk.keys().any(|p| p.contains("etc")));
}

#[test]
fn import_requires_unlock() {
    let (mut world, mut app) = locked();
    let zip = make_zip(&[("wiki/A.md", "# A\n")]);
    assert_eq!(import(&mut world, &mut app, zip).status, Some(423));
}

#[test]
fn imports_that_are_not_sealed_are_not_reported() {
    let (mut world, mut app) = unlocked_with_model();
    world.seal_fails = true;
    let end = import(&mut world, &mut app, make_zip(&[("wiki/A.md", "# A\n")]));
    assert_eq!(end.status, Some(500));
    assert_eq!(end.text("error"), "封印失败：disk full");
    assert!(app.current_session.is_some());
}

#[test]
fn delete_quick_removes_and_commits() {
    let (mut world, mut app) = unlocked_with_model();
    seed(
        &mut world,
        &app,
        &[
            ("index.md", "# 索引 [[A]]"),
            ("wiki/A.md", "# A\n\n链接 [[B]]\n"),
            ("wiki/B.md", "# B\n"),
        ],
    );
    let end = delete(&mut world, &mut app, "wiki/A.md", "quick");
    assert_eq!(end.status, Some(200));
    assert_eq!(end.flag("deleted"), Some(true));
    assert_eq!(end.count("files_removed"), 1);
    assert!(end.get("degraded").is_none());
    let order: Vec<&str> = end.trace.iter().copied().filter(|t| *t != "-").collect();
    assert_eq!(order, ["remove", "commit", "seal", "open", "lock chat", "respond"]);
    let s = tree(&world, &app);
    assert!(!s.contains("A.md"), "tree: {s}");
    assert!(s.contains("B.md"));
    assert!(log(&world, &app).contains("Delete: wiki/A.md"));
    reopen(&mut world, &mut app);
    let s = tree(&world, &app);
    assert!(!s.contains("A.md"), "tree after reopen: {s}");
    assert!(s.contains("B.md"));
}

#[test]
fn delete_protected_paths_rejected() {
    let (mut world, mut app) = unlocked_with_model();
    for path in ["index.md", "schema.md", "log.md", "./index.md", "log.md/"] {
        let end = delete(&mut world, &mut app, path, "quick");
        assert_eq!(end.status, Some(400), "{path}");
        assert!(end.text("error").contains("不可删除"));
    }
    for path in ["", "  "] {
        let end = delete(&mut world, &mut app, path, "quick");
        assert_eq!(end.text("error"), "非法路径：越出知识库目录");
    }
}

#[test]
fn a_root_with_core_files_is_not_deleted() {
    for core in ["index.md", "schema.md", "log.md"] {
        let (mut world, mut app) = unlocked_with_model();
        seed(&mut world, &app, &[("wiki/A.md", "# A\n"), (core, "x")]);
        let before = tree(&world, &app);
        for path in [".", "./", "./."] {
            let end = delete(&mut world, &mut app, path, "quick");
            assert_eq!(end.status, Some(400), "{path}");
            assert_eq!(
                end.text("error"),
                format!("{path} 是知识库核心文件（index/schema/log），不可删除")
            );
            assert!(!end.trace.contains(&"remove"));
        }
        assert_eq!(tree(&world, &app), before);
    }
}

#[test]
fn a_root_without_core_files_is_deleted() {
    let (mut world, mut app) = unlocked_with_model();
    seed(&mut world, &app, &[("wiki/index.md", "# A\n"), ("wiki/B.md", "# B\n")]);
    let end = delete(&mut world, &mut app, "./", "quick");
    assert!(end.trace.contains(&"remove"));
    assert!(!tree(&world, &app).contains("B.md"));
}

#[test]
fn delete_requires_unlock() {
    let (mut world, mut app) = locked();
    assert_eq!(delete(&mut world, &mut app, "wiki/A.md", "quick").status, Some(423));
}

#[test]
fn delete_smart_degrades_without_llm() {
    let (mut world, mut app) = locked();
    assert_eq!(open(&mut world, &mut app, "pw-A").status, Some(200));
    seed(&mut world, &app, &[("index.md", "# 索引"), ("wiki/A.md", "# A\n")]);
    let end = delete(&mut world, &mut app, "wiki/A.md", "smart");
    assert_eq!(end.status, Some(200));
    assert_eq!(end.flag("deleted"), Some(true));
    assert_eq!(end.count("files_removed"), 1);
    assert_eq!(end.flag("degraded"), Some(true));
    assert!(end.get("answer").is_none());
    assert!(!tree(&world, &app).contains("A.md"));
}

#[test]
fn delete_path_traversal_blocked() {
    let (mut world, mut app) = unlocked_with_model();
    seed(&mut world, &app, &[("wiki/A.md", "# A\n")]);
    for path in ["../etc/passwd", "../../etc/passwd", "/etc/passwd"] {
        let end = delete(&mut world, &mut app, path, "quick");
        assert_eq!(end.status, Some(400), "{path}");
    }
    let dir = work(&app);
    assert!(world.disk.contains_key(&format!("{dir}/wiki/A.md")));
}

#[test]
fn delete_smart_lets_an_agent_clean_up() {
    let (mut world, mut app) = unlocked_with_model();
    seed(&mut world, &app, &[("index.md", "[[A]]"), ("wiki/A.md", "# A"), ("wiki/d/x", "")]);
    world.reaction = |disk, dir| {
        disk.insert(format!("{dir}/index.md"), b"cleaned".to_vec());
        Ok("cleaned index".to_string())
    };
    let end = delete(&mut world, &mut app, "wiki\\A.md", "smart");
    assert_eq!(end.status, Some(200));
    assert_eq!(end.text("answer"), "cleaned index");
    assert_eq!(end.texts("files_touched"), ["index.md"]);
    assert!(end.get("degraded").is_none());
    assert!(log(&world, &app).contains("Cleanup references after delete: wiki/A.md"));
    assert!(world.prompts[0].contains("[[A]]"));

    world.reaction = |_, _| Ok("nothing to do".to_string());
    let end = delete(&mut world, &mut app, "wiki", "smart");
    assert_eq!(end.count("files_removed"), 1);
    assert_eq!(end.texts("files_touched"), Vec::<String>::new());
    assert_eq!(end.trace.iter().filter(|t| **t == "commit").count(), 1);

    world.reaction = |_, _| Err("no answer".to_string());
    seed(&mut world, &app, &[("wiki/B.md", "# B")]);
    app.chat = true;
    let end = delete(&mut world, &mut app, "wiki/B.md", "smart");
    assert_eq!(end.status, Some(500));
    assert_eq!(end.text("error"), "文件已删除，但 Agent 引用清理失败：no answer");
    assert!(!app.chat);
    reopen(&mut world, &mut app);
    assert!(!tree(&world, &app).contains("B.md"));
}

#[test]
fn deletions_that_cannot_be_are_told() {
    let (mut world, mut app) = unlocked_with_model();
    seed(&mut world, &app, &[("wiki/A.md", "# A")]);
    assert_eq!(delete(&mut world, &mut app, "wiki/none.md", "quick").status, Some(404));
    let end = delete(&mut world, &mut app, "wiki/A.md", "gently");
    assert_eq!(end.text("error"), "mode 仅支持 quick 或 smart");
    world.seal_fails = true;
    let end = delete(&mut world, &mut app, "wiki/A.md", "quick");
    assert_eq!(end.text("error"), "封印失败：disk full");
    app.current_session = None;
    assert_eq!(delete(&mut world, &mut app, "wiki/A.md", "quick").status, Some(423));
    let mut run = DeleteRun::new("x".to_string(), "quick".to_string());
    assert!(matches!(run.next(&mut app, Event::Ready), ActionOf::Misfit));
    assert!(matches!(run.next(&mut app, Event::Start), ActionOf::Misfit));
}

#[test]
fn failures_outside_are_told() {
    let (_, mut app) = unlocked_with_model();
    let mut run = DeleteRun::new("x".to_string(), "quick".to_string());
    run.next(&mut app, Event::Start);
    run.next(&mut app, Event::Ready);
    run.next(&mut app, Event::Ready);
    let e = Event::Resolved { root: Ok("/r".into()), target: Some("/r/x".into()) };
    run.next(&mut app, e);
    let e = Event::Scanned(RawEntry { name: "x".into(), kind: RawKind::File });
    assert!(matches!(run.next(&mut app, e), ActionOf::Remove { tree: false, .. }));
    match run.next(&mut app, Event::Done(Err("busy".to_string()))) {
        ActionOf::Respond { status, body } => {
            assert_eq!(status, 500);
            assert!(matches!(&body[0].value, ValueOf::Text(s) if s == "删除失败：busy"));
        }
        _ => panic!("not answered"),
    }
    let mut run = DeleteRun::new("x".to_string(), "quick".to_string());
    run.next(&mut app, Event::Start);
    run.next(&mut app, Event::Ready);
    run.next(&mut app, Event::Ready);
    let e = Event::Resolved { root: Ok("/r".into()), target: Some("/other/x".into()) };
    assert!(matches!(run.next(&mut app, e), ActionOf::Respond { status: 400, .. }));
}

/// A deletion that is told where its path leads in the wiki at `/r`.
fn resolve_to(path: &str, target: &str) -> (DeleteRun, AppState, Action) {
    let (_, mut app) = unlocked_with_model();
    let mut run = DeleteRun::new(path.to_string(), "quick".to_string());
    run.next(&mut app, Event::Start);
    run.next(&mut app, Event::Ready);
    assert!(matches!(run.next(&mut app, Event::Ready), ActionOf::Resolve { .. }));
    let e = Event::Resolved { root: Ok("/r".into()), target: Some(target.into()) };
    let a = run.next(&mut app, e);
    (run, app, a)
}

fn refusal(a: Action) -> String {
    match a {
        ActionOf::Respond { status: 400, body } => match &body[0].value {
            ValueOf::Text(s) => s.clone(),
            _ => panic!("no reason"),
        },
        _ => panic!("not refused"),
    }
}

#[test]
fn links_to_core_files_are_not_followed() {
    for core in ["/r/index.md", "/r/schema.md", "/r/log.md"] {
        assert_eq!(
            refusal(resolve_to("note.md", core).2),
            "note.md 是知识库核心文件（index/schema/log），不可删除"
        );
    }
    for other in ["/r/wiki/index.md", "/r/index.md/x", "/r/indexmd", "/r/note.md"] {
        assert!(matches!(resolve_to("note.md", other).2, ActionOf::Scan(t) if t == other));
    }
}

#[test]
fn links_to_the_root_spare_core_files() {
    let entry = |name: &str, kind: RawKind| RawEntry { name: name.to_string(), kind };
    for root in ["/r", "/r/", "/r/."] {
        for core in ["index.md", "schema.md", "log.md"] {
            let (mut run, mut app, a) = resolve_to("here", root);
            assert!(matches!(a, ActionOf::Scan(t) if t == root));
            let inner = vec![entry("x", RawKind::File), entry(core, RawKind::Other)];
            let e = Event::Scanned(entry("r", RawKind::Dir(inner)));
            assert_eq!(
                refusal(run.next(&mut app, e)),
                "here 是知识库核心文件（index/schema/log），不可删除"
            );
        }
        let (mut run, mut app, _) = resolve_to("here", root);
        let deep = entry("wiki", RawKind::Dir(vec![entry("index.md", RawKind::File)]));
        let e = Event::Scanned(entry("r", RawKind::Dir(vec![deep])));
        let a = run.next(&mut app, e);
        assert!(matches!(a, ActionOf::Remove { target, tree: true } if target == root));
    }
    let (mut run, mut app, _) = resolve_to("wiki", "/r/wiki");
    let e = Event::Scanned(entry("wiki", RawKind::Dir(vec![entry("index.md", RawKind::File)])));
    assert!(matches!(run.next(&mut app, e), ActionOf::Remove { tree: true, .. }));
    assert_eq!(refusal(resolve_to("here", "/").2), "非法路径：越出知识库目录");
}

#[test]
fn overtaken_unlocking_opens_nothing() {
    let (mut world, mut app) = locked();
    let mut run = OpenRun::new("pw-A".to_string());
    run.next(&mut app, Event::Start);
    let call = match run.next(&mut app, Event::Present(vec!["/v/vault.mwenc".to_string()])) {
        ActionOf::Kernel(call) => call,
        _ => panic!("no password tried"),
    };
    let told = world.call(call);
    assert!(matches!(told, Event::Unlocked { unlocked: true, .. }));
    assert_eq!(close(&mut world, &mut app, "tok-1").status, Some(200));
    assert!(matches!(run.next(&mut app, told), ActionOf::LockVault));
    assert_eq!(app.gateway.state(), GatewayState::Closed);
    assert_eq!(app.llm_report().status, 423);
    assert!(world.open_session(&app).is_err());
    // Tried once more, the same password opens the gateway.
    assert_eq!(open(&mut world, &mut app, "pw-A").status, Some(200));
    assert_eq!(app.gateway.state(), GatewayState::Open);
}

#[test]
fn queries_seal_only_what_they_change() {
    let (mut world, mut app) = unlocked_with_model();
    assert_eq!(query(&mut world, &mut app, "  ").status, Some(400));
    let end = query(&mut world, &mut app, "你好");
    assert_eq!(end.text("error"), "Agent 查询失败：unreachable model");
    world.reaction = |_, _| Ok("42".to_string());
    let end = query(&mut world, &mut app, "你好");
    assert_eq!(end.status, Some(200));
    assert_eq!(end.flag("sealed"), Some(false));
    assert_eq!(end.texts("files"), Vec::<String>::new());
    assert!(!end.trace.contains(&"seal"));
    world.reaction = |disk, dir| {
        disk.insert(format!("{dir}/wiki/q.md"), b"a".to_vec());
        Ok("kept".to_string())
    };
    let end = query(&mut world, &mut app, "你好");
    assert_eq!(end.flag("sealed"), Some(true));
    assert_eq!(end.texts("files"), ["wiki/q.md"]);
    assert!(end.trace.contains(&"seal"));
    reopen(&mut world, &mut app);
    assert!(tree(&world, &app).contains("q.md"));
    app.current_session = None;
    assert_eq!(query(&mut world, &mut app, "你好").status, Some(200));
}

#[test]
fn locking_during_a_request_keeps_it_from_sealing() {
    let (mut world, mut app) = unlocked_with_model();
    let before = world.disk["/v/vault.mwenc"].clone();
    let dir = work(&app);
    app.lock("now".to_string());
    assert_eq!(
        world.seal(&app, &dir).unwrap_err(),
        "session terminated — nothing is sealed"
    );
    assert_eq!(world.disk["/v/vault.mwenc"], before);
    assert!(world.open_session(&app).is_err());
}

#[test]
fn states_that_cannot_be_loaded_are_told() {
    let found = |container: Result<Vec<u8>, String>, token: Result<String, String>, there: bool| Found {
        present: if there { vec!["/v/vault.mwenc".to_string()] } else { vec![] },
        container,
        admin_token: token,
        salt: Err("no randomness".to_string()),
        config: None,
        env: LlmEnv { provider: None, base_url: None, api_key: None, model: None },
    };
    let load = |f: Found| load_state(Vault::open("/v").ok().unwrap(), "/s", f).err().unwrap();
    assert_eq!(load(found(Err("x".into()), Ok("t".into()), true)), "read vault container");
    assert_eq!(
        load(found(Ok(vec![1]), Ok("t".into()), true)),
        "not a mindwiki vault container"
    );
    assert_eq!(load(found(Ok(vec![1]), Ok("t".into()), false)), "no randomness");
    let (world, _) = locked();
    let good = world.disk["/v/vault.mwenc"].clone();
    assert_eq!(load(found(Ok(good), Err("no token".into()), true)), "no token");
}
