use mindwiki::gateway::{
    GatewayState, KernelCallOf, KeyGateway, SessionRegistry, Unlocking,
};
use mindwiki::vault::Vault;

/// A kernel that shifts bytes by a number made of the password and the salt.
struct Kernel {
    salt: Vec<u8>,
    key: Option<u64>,
}

fn derive(password: &str, salt: &[u8]) -> u64 {
    let mut k: u64 = 0xcbf2_9ce4_8422_2325;
    for b in password.bytes().chain(salt.iter().copied()) {
        k = (k ^ b as u64).wrapping_mul(0x100_0000_01b3);
    }
    k
}

fn fits(token: &[u8], key: u64) -> bool {
    token.len() >= 8 && token[..8] == key.to_le_bytes()
}

impl Kernel {
    fn new(salt: Vec<u8>) -> Kernel {
        Kernel { salt, key: None }
    }

    fn encrypt(&self, data: &[u8]) -> Result<Vec<u8>, String> {
        let k = self.key.ok_or("locked".to_string())?;
        let mut v = k.to_le_bytes().to_vec();
        v.extend(data.iter().map(|b| b.wrapping_add(k as u8 | 1)));
        Ok(v)
    }

    fn decrypt(&self, data: &[u8]) -> Result<Vec<u8>, String> {
        let k = self.key.ok_or("locked".to_string())?;
        if !fits(data, k) {
            return Err("decryption failed".to_string());
        }
        Ok(data[8..].iter().map(|b| b.wrapping_sub(k as u8 | 1)).collect())
    }
}

fn open(gw: &mut KeyGateway, kernel: &mut Kernel, password: &str) -> Result<(), String> {
    match gw.open(password) {
        KernelCallOf::Unlock { password } => {
            kernel.key = Some(derive(&password, &kernel.salt));
            gw.opened(Unlocking::Derived, true)
        }
        KernelCallOf::UnlockWithVerify { password, token } => {
            let k = derive(&password, &kernel.salt);
            let ok = fits(&token, k);
            kernel.key = if ok { Some(k) } else { None };
            gw.opened(Unlocking::Tried(Ok(ok)), ok)
        }
        _ => unreachable!(),
    }
}

fn encrypt(gw: &KeyGateway, kernel: &Kernel, data: &[u8]) -> Result<Vec<u8>, String> {
    match gw.encrypt(data.to_vec())? {
        KernelCallOf::Encrypt(data) => kernel.encrypt(&data),
        _ => unreachable!(),
    }
}

fn decrypt(gw: &KeyGateway, kernel: &Kernel, data: &[u8]) -> Result<Vec<u8>, String> {
    match gw.decrypt(data.to_vec())? {
        KernelCallOf::Decrypt(data) => kernel.decrypt(&data),
        _ => unreachable!(),
    }
}

fn token(gw: &mut KeyGateway, kernel: &Kernel) -> Vec<u8> {
    gw.ensure_verify_token(kernel.encrypt(b"token")).unwrap()
}

fn close(gw: &mut KeyGateway, kernel: &mut Kernel) {
    let (call, _) = gw.close("now".to_string());
    assert!(matches!(call, KernelCallOf::Lock));
    kernel.key = None;
}

#[test]
fn gateway_close_blocks_decrypt() {
    let mut kernel = Kernel::new(vec![5; 16]);
    let mut gw = KeyGateway::new(Ok(vec![5; 16])).ok().unwrap();
    open(&mut gw, &mut kernel, "pw").unwrap();
    assert!(gw.guard().is_ok());
    let ct = encrypt(&gw, &kernel, b"hello").unwrap();
    assert_eq!(decrypt(&gw, &kernel, &ct).unwrap(), b"hello");
    close(&mut gw, &mut kernel);
    assert!(gw.guard().is_err());
    assert!(decrypt(&gw, &kernel, &ct).is_err());
    assert_eq!(gw.state(), GatewayState::Closed);
    assert_eq!(gw.guard().unwrap_err(), "key gateway closed — all ciphertext is inert");
    assert_eq!(encrypt(&gw, &kernel, b"x").unwrap_err(), gw.guard().unwrap_err());
}

#[test]
fn wrong_password_rejected_by_gateway() {
    let mut kernel = Kernel::new(vec![9; 16]);
    let mut gw = KeyGateway::new(Ok(vec![9; 16])).ok().unwrap();
    open(&mut gw, &mut kernel, "pw-A").unwrap();
    let t = token(&mut gw, &kernel);
    let salt = gw.salt().to_vec();
    close(&mut gw, &mut kernel);

    let mut kernel2 = Kernel::new(salt.clone());
    let mut gw2 = KeyGateway::from_container(salt.clone(), t.clone());
    assert_eq!(open(&mut gw2, &mut kernel2, "pw-B").unwrap_err(), "wrong password");
    assert_eq!(gw2.state(), GatewayState::Closed);

    let mut kernel3 = Kernel::new(salt.clone());
    let mut gw3 = KeyGateway::from_container(salt, t);
    open(&mut gw3, &mut kernel3, "pw-A").unwrap();
    assert_eq!(gw3.state(), GatewayState::Open);
}

/// The container that a new vault is created with.
fn created(vault: &Vault, password: &str) -> Vec<u8> {
    let salt = vec![7u8; 16];
    let mut kernel = Kernel::new(salt.clone());
    let mut gw = KeyGateway::new(Ok(salt)).ok().unwrap();
    open(&mut gw, &mut kernel, password).unwrap();
    token(&mut gw, &kernel);
    let payload = encrypt(&gw, &kernel, b"").unwrap();
    let data = vault.seal_payload(&gw, payload).unwrap();
    close(&mut gw, &mut kernel);
    data
}

#[test]
fn wrong_password_rejected() {
    let vault = Vault::open("/v").ok().unwrap();
    let data = created(&vault, "pw-A");
    let c = mindwiki::container::decode(&data).unwrap();
    let mut kernel = Kernel::new(c.salt.clone());
    let mut bad = KeyGateway::from_container(c.salt.clone(), c.verify_token.clone());
    assert!(open(&mut bad, &mut kernel, "pw-B").is_err());
    assert_eq!(bad.state(), GatewayState::Closed);
}

#[test]
fn closed_gateways_can_be_opened_again() {
    let mut kernel = Kernel::new(vec![1; 16]);
    let mut gw = KeyGateway::new(Ok(vec![1; 16])).ok().unwrap();
    assert_eq!(gw.closed_at(), None);
    open(&mut gw, &mut kernel, "pw").unwrap();
    let t = token(&mut gw, &kernel);
    assert_eq!(gw.verify_token(), Some(t.clone()));
    close(&mut gw, &mut kernel);
    assert_eq!(gw.closed_at(), Some("now".to_string()));
    assert!(open(&mut gw, &mut kernel, "other").is_err());
    open(&mut gw, &mut kernel, "pw").unwrap();
    assert_eq!(gw.state(), GatewayState::Open);
    assert_eq!(gw.ensure_verify_token(Err("unused".to_string())).unwrap(), t);
}

#[test]
fn kernel_failures_are_told() {
    assert_eq!(KeyGateway::new(Err("no randomness".to_string())).err().unwrap(), "no randomness");
    let mut gw = KeyGateway::new(Ok(vec![])).ok().unwrap();
    assert_eq!(gw.ensure_verify_token(Err("locked".to_string())).unwrap_err(), "locked");
    assert_eq!(gw.verify_token(), None);
    let r = gw.opened(Unlocking::Tried(Err("bad token".to_string())), false);
    assert_eq!(r.unwrap_err(), "bad token");
}

#[test]
fn closing_ends_the_registered_sessions() {
    let mut gw = KeyGateway::from_container(vec![0; 16], vec![1]);
    gw.register("a", "/a");
    gw.register("b", "/b");
    gw.register("a", "/a2");
    assert_eq!(gw.active_sessions(), 2);
    gw.unregister("nobody");
    gw.unregister("b");
    assert_eq!(gw.active_sessions(), 1);
    gw.register("c", "/c");
    let (_, ended) = gw.close("t".to_string());
    assert_eq!(gw.active_sessions(), 0);
    let mut dirs: Vec<&str> = ended.iter().map(|r| r.handle.work_dir.as_str()).collect();
    dirs.sort();
    assert_eq!(dirs, ["/a2", "/c"]);
    assert!(ended.iter().all(|r| r.handle.terminate));
}

#[test]
fn ended_sessions_are_not_sealed() {
    let vault = Vault::open("/v").ok().unwrap();
    let mut gw = KeyGateway::from_container(vec![0; 16], vec![1]);
    gw.opened(Unlocking::Derived, true).unwrap();
    let mut s = vault.session_opened(&mut gw, "id".to_string(), "/w".to_string());
    assert_eq!(s.work_dir(), "/w");
    assert_eq!(gw.active_sessions(), 1);
    assert!(vault.seal_session(&gw, &s, Ok(vec![1])).is_ok());
    assert_eq!(vault.seal_session(&gw, &s, Err("full".into())).err().unwrap(), "full");
    s.terminate = true;
    assert!(vault.seal_session(&gw, &s, Ok(vec![1])).is_err());
    s.terminate = false;
    gw.close("t".to_string());
    assert!(vault.seal_session(&gw, &s, Ok(vec![1])).is_err());
}

#[test]
fn vaults_know_their_files() {
    let vault = Vault::open("/data/v").ok().unwrap();
    assert_eq!(vault.container_path(), "/data/v/vault.mwenc");
    assert_eq!(vault.admin_token_path(), "/data/v/admin.token");
    assert_eq!(vault.config_path(), "/data/v/appconfig.json");
    assert_eq!(vault.mindrule_path(), "/data/v/mindrule.txt");
    assert!(!vault.is_present(&vec![]));
    assert!(vault.is_present(&vec!["/x".to_string(), "/data/v/vault.mwenc".to_string()]));
}

#[test]
fn containers_that_cannot_be_opened_are_told() {
    let vault = Vault::open("/v").ok().unwrap();
    let data = created(&vault, "pw");
    let mut gw = KeyGateway::from_container(vec![7; 16], vec![1]);
    assert_eq!(vault.open_session(&gw, Err("gone".into())).err().unwrap(), "gone");
    assert_eq!(
        vault.open_session(&gw, Ok(b"junk".to_vec())).err().unwrap(),
        "not a mindwiki vault container"
    );
    assert_eq!(
        vault.open_session(&gw, Ok(data[..30].to_vec())).err().unwrap(),
        "vault container is truncated"
    );
    assert_eq!(
        vault.open_session(&gw, Ok(data.clone())).err().unwrap(),
        "key gateway closed — all ciphertext is inert"
    );
    gw.opened(Unlocking::Derived, true).unwrap();
    let payload = mindwiki::container::decode(&data).unwrap().payload;
    match vault.open_session(&gw, Ok(data)).ok().unwrap() {
        KernelCallOf::Decrypt(bytes) => assert_eq!(bytes, payload),
        _ => unreachable!(),
    }
    assert_eq!(
        Vault::gateway_from_container(Err("x".into())).err().unwrap(),
        "read vault container"
    );
    let bare = KeyGateway::new(Ok(vec![0; 16])).ok().unwrap();
    assert_eq!(vault.seal_payload(&bare, vec![]).unwrap_err(), "vault has no verify token");
}
