//! A vault: a directory whose knowledge base lies in one encrypted container, and the sessions
//! in which that is worked on.

use crate::container::{decode, encode, ContainerData};
#[allow(unused_imports)]
use crate::container::{
    container_bytes,
    contents_of,
    has_header,
    is_container,
    law_container_roundtrip,
    ContainerError,
    Contents,
    SALT_LEN,
};
use crate::gateway::{copy_bytes, KernelCall, KeyGateway, SessionRegistry};
#[allow(unused_imports)]
use crate::gateway::{fresh_gateway, gate_closed, Gateway, KernelCallModel, KernelCallOf};
use crate::paths::{join_path, lists};
#[allow(unused_imports)]
use crate::paths::under;
use crate::text::texts;
use vstd::prelude::*;

verus! {

pub struct Vault {
    pub root: String,
}

/// A decrypted copy of a vault in a directory of its own.
pub struct DecryptedSession {
    pub id: String,
    pub work_dir: String,
    /// Ended by the gateway: what it holds is thrown away, and never sealed.
    pub terminate: bool,
}

/// The mathematical content of a session.
pub struct Session {
    pub id: Seq<char>,
    pub work_dir: Seq<char>,
    pub terminate: bool,
}

impl View for DecryptedSession {
    type V = Session;

    open spec fn view(&self) -> Session {
        Session { id: self.id@, work_dir: self.work_dir@, terminate: self.terminate }
    }
}

impl DecryptedSession {
    pub fn work_dir(&self) -> (d: &str)
        ensures
            d@ == self@.work_dir,
    {
        self.work_dir.as_str()
    }
}

pub open spec fn bytes_or_why(r: Result<Vec<u8>, String>) -> Result<Seq<u8>, Seq<char>> {
    match r {
        Ok(v) => Ok(v@),
        Err(why) => Err(why@),
    }
}

pub open spec fn call_or_why(r: Result<KernelCall, String>) -> Result<KernelCallModel, Seq<char>> {
    match r {
        Ok(call) => Ok(call@),
        Err(why) => Err(why@),
    }
}

/// What the kernel is to decrypt to open a session: the payload of the container, if that can be
/// read, if it is one, and if the gateway is open.
pub open spec fn opening_call(g: Gateway, container: Result<Seq<u8>, Seq<char>>) -> Result<
    KernelCallModel,
    Seq<char>,
> {
    match container {
        Err(why) => Err(why),
        Ok(data) => if !has_header(data) {
            Err(ContainerError::NotAContainer.text())
        } else if !is_container(data) {
            Err(ContainerError::Truncated.text())
        } else if !g.unlocked {
            Err(gate_closed())
        } else {
            Ok(KernelCallOf::Decrypt(contents_of(data).payload))
        },
    }
}

pub open spec fn session_ended() -> Seq<char> {
    "session terminated — nothing is sealed"@
}

/// What the kernel is to encrypt to seal a session: what the session's directory was packed into,
/// unless the session has been ended or the gateway is closed.
pub open spec fn sealing_call(
    g: Gateway,
    session: Session,
    packed: Result<Seq<u8>, Seq<char>>,
) -> Result<KernelCallModel, Seq<char>> {
    if session.terminate {
        Err(session_ended())
    } else {
        match packed {
            Err(why) => Err(why),
            Ok(data) => if g.unlocked {
                Ok(KernelCallOf::Encrypt(data))
            } else {
                Err(gate_closed())
            },
        }
    }
}

/// The container for an encrypted payload: with the gateway's salt and token.
pub open spec fn sealed(g: Gateway, payload: Seq<u8>) -> Option<Seq<u8>> {
    match g.token {
        Some(verify_token) => Some(container_bytes(Contents { salt: g.salt, verify_token, payload })),
        None => None,
    }
}

/// The gateway of an existing vault, or why there is none.
pub open spec fn gateway_in(container: Result<Vec<u8>, String>) -> Result<Gateway, Seq<char>> {
    match container {
        Err(_) => Err("read vault container"@),
        Ok(data) => if is_container(data@) {
            let c = contents_of(data@);
            Ok(fresh_gateway(c.salt, Some(c.verify_token)))
        } else if has_header(data@) {
            Err(ContainerError::Truncated.text())
        } else {
            Err(ContainerError::NotAContainer.text())
        },
    }
}

impl Vault {
    pub fn open(root: &str) -> (r: Result<Vault, String>)
        ensures
            r matches Ok(v) && v.root@ == root@,
    {
        Ok(Vault { root: root.to_owned() })
    }

    pub fn container_path(&self) -> (p: String)
        ensures
            p@ == under(self.root@, "vault.mwenc"@),
    {
        join_path(self.root.as_str(), "vault.mwenc")
    }

    pub fn admin_token_path(&self) -> (p: String)
        ensures
            p@ == under(self.root@, "admin.token"@),
    {
        join_path(self.root.as_str(), "admin.token")
    }

    pub fn config_path(&self) -> (p: String)
        ensures
            p@ == under(self.root@, "appconfig.json"@),
    {
        join_path(self.root.as_str(), "appconfig.json")
    }

    pub fn mindrule_path(&self) -> (p: String)
        ensures
            p@ == under(self.root@, "mindrule.txt"@),
    {
        join_path(self.root.as_str(), "mindrule.txt")
    }

    /// Whether the vault has been created: whether its container is one of the files that there
    /// are.
    pub fn is_present(&self, present: &Vec<String>) -> (b: bool)
        ensures
            b == texts(present@).contains(under(self.root@, "vault.mwenc"@)),
    {
        let path = self.container_path();
        lists(present, path.as_str())
    }

    /// The gateway of an existing vault, from the bytes of its container.
    pub fn gateway_from_container(container: Result<Vec<u8>, String>) -> (r: Result<
        KeyGateway,
        String,
    >)
        ensures
            (match r {
                Ok(g) => Ok(g@),
                Err(why) => Err(why@),
            }) == gateway_in(container),
    {
        match container {
            Err(_) => Err("read vault container".to_owned()),
            Ok(data) => match decode(data.as_slice()) {
                Ok(c) => Ok(KeyGateway::from_container(c.salt, c.verify_token)),
                Err(e) => Err(e.message()),
            },
        }
    }

    /// What the kernel is to decrypt to open a session, from the bytes of the container.
    pub fn open_session(&self, gateway: &KeyGateway, container: Result<Vec<u8>, String>) -> (r:
        Result<KernelCall, String>)
        ensures
            call_or_why(r) == opening_call(gateway@, bytes_or_why(container)),
    {
        match container {
            Err(why) => Err(why),
            Ok(data) => match decode(data.as_slice()) {
                Ok(c) => gateway.decrypt(c.payload),
                Err(e) => Err(e.message()),
            },
        }
    }

    /// The session that was unpacked into `work_dir`, entered with the gateway.
    pub fn session_opened(&self, gateway: &mut KeyGateway, id: String, work_dir: String) -> (s:
        DecryptedSession)
        ensures
            s@ == (Session { id: id@, work_dir: work_dir@, terminate: false }),
            final(gateway)@ == (Gateway {
                sessions: old(gateway)@.sessions.insert(id@, work_dir@),
                ..old(gateway)@
            }),
    {
        gateway.register(id.as_str(), work_dir.as_str());
        DecryptedSession { id, work_dir, terminate: false }
    }

    /// What the kernel is to encrypt to seal a session, from what its directory was packed into.
    pub fn seal_session(
        &self,
        gateway: &KeyGateway,
        session: &DecryptedSession,
        packed: Result<Vec<u8>, String>,
    ) -> (r: Result<KernelCall, String>)
        ensures
            call_or_why(r) == sealing_call(gateway@, session@, bytes_or_why(packed)),
    {
        if session.terminate {
            return Err("session terminated — nothing is sealed".to_owned());
        }
        match packed {
            Err(why) => Err(why),
            Ok(data) => gateway.encrypt(data),
        }
    }

    /// The bytes of the container for an encrypted payload.
    pub fn seal_payload(&self, gateway: &KeyGateway, payload: Vec<u8>) -> (r: Result<
        Vec<u8>,
        String,
    >)
        ensures
            match sealed(gateway@, payload@) {
                Some(data) => r matches Ok(v) && v@ == data,
                None => r matches Err(e) && e@ == "vault has no verify token"@,
            },
    {
        match gateway.verify_token() {
            Some(verify_token) => {
                let salt = copy_bytes(gateway.salt());
                Ok(encode(&ContainerData { salt, verify_token, payload }))
            },
            None => Err("vault has no verify token".to_owned()),
        }
    }
}

/// What was sealed is what is opened: from a sealed container, an open gateway has the kernel decrypt
/// exactly the payload that was sealed, and the gateway that is made from the container has the
/// salt and the token of the one that sealed it.
pub proof fn law_seal_then_open(g: Gateway, payload: Seq<u8>)
    requires
        g.salt.len() == SALT_LEN,
        g.token matches Some(t) && t.len() <= u64::MAX,
        payload.len() <= u64::MAX,
    ensures
        sealed(g, payload) is Some,
        is_container(sealed(g, payload)->0),
        g.unlocked ==> opening_call(g, Ok(sealed(g, payload)->0)) == Ok::<
            KernelCallModel,
            Seq<char>,
        >(KernelCallOf::Decrypt(payload)),
        contents_of(sealed(g, payload)->0).salt == g.salt,
        Some(contents_of(sealed(g, payload)->0).verify_token) == g.token,
{
    law_container_roundtrip(Contents { salt: g.salt, verify_token: g.token->0, payload });
}

/// A session that the gateway ended is never sealed, and while the gateway is closed none is: the
/// container stays as it was.
pub proof fn law_ended_sessions_are_not_sealed(
    g: Gateway,
    session: Session,
    packed: Result<Seq<u8>, Seq<char>>,
    container: Result<Seq<u8>, Seq<char>>,
)
    ensures
        session.terminate || !g.unlocked ==> sealing_call(g, session, packed) is Err,
        !g.unlocked ==> opening_call(g, container) is Err,
{
}

/// What is sealed is what the session's directory was packed into, and it is sealed exactly if the
/// session has not been ended, the directory could be packed, and the gateway is open; otherwise the
/// first of these that fails is told.
pub proof fn law_sealing_takes_the_whole_session(
    g: Gateway,
    session: Session,
    packed: Result<Seq<u8>, Seq<char>>,
)
    ensures
        match sealing_call(g, session, packed) {
            Ok(call) => !session.terminate && g.unlocked && (packed matches Ok(data) && call
                == KernelCallModel::Encrypt(data)),
            Err(why) => if session.terminate {
                why == "session terminated — nothing is sealed"@
            } else if packed is Err {
                packed == Err::<Seq<u8>, Seq<char>>(why)
            } else {
                !g.unlocked && why == "key gateway closed — all ciphertext is inert"@
            },
        },
        session_ended() == "session terminated — nothing is sealed"@,
{
}

/// A session is opened from the payload of the container, exactly if the container can be read and is
/// one, and the gateway is open; otherwise the first of these that fails is told.
pub proof fn law_opening_takes_the_payload(g: Gateway, container: Result<Seq<u8>, Seq<char>>)
    ensures
        match opening_call(g, container) {
            Ok(call) => g.unlocked && (container matches Ok(data) && is_container(data) && call
                == KernelCallModel::Decrypt(contents_of(data).payload)),
            Err(why) => match container {
                Err(reason) => why == reason,
                Ok(data) => if !has_header(data) {
                    why == "not a mindwiki vault container"@
                } else if !is_container(data) {
                    why == "vault container is truncated"@
                } else {
                    !g.unlocked && why == "key gateway closed — all ciphertext is inert"@
                },
            },
        },
{
}

/// The gateway of a vault is made from the salt and the token in its container, and is closed; what
/// is no container gives none.
pub proof fn law_gateways_come_from_containers(container: Result<Vec<u8>, String>)
    ensures
        match (gateway_in(container), container) {
            (Ok(g), Ok(data)) => is_container(data@) && !g.unlocked && g.salt == contents_of(
                data@,
            ).salt && g.token == Some(contents_of(data@).verify_token) && g.closed_at is None
                && g.sessions == Map::<Seq<char>, Seq<char>>::empty(),
            (Err(why), Ok(data)) => !is_container(data@) && why == (if has_header(data@) {
                "vault container is truncated"@
            } else {
                "not a mindwiki vault container"@
            }),
            (Err(why), Err(_)) => why == "read vault container"@,
            (Ok(_), Err(_)) => false,
        },
{
}

/// A container is sealed with the salt and the token of the gateway, if that has one.
pub proof fn law_containers_carry_salt_and_token(g: Gateway, payload: Seq<u8>)
    ensures
        match (sealed(g, payload), g.token) {
            (Some(data), Some(token)) => data == container_bytes(
                Contents { salt: g.salt, verify_token: token, payload },
            ),
            (None, None) => true,
            _ => false,
        },
{
}

/// The model of a result is the result, with every byte of what came and every character of why
/// nothing did.
pub proof fn law_vault_results_are_modelled_whole(bytes: Vec<u8>, call: KernelCall, why: String)
    ensures
        bytes_or_why(Ok(bytes)) == Ok::<Seq<u8>, Seq<char>>(bytes@),
        bytes_or_why(Err(why)) == Err::<Seq<u8>, Seq<char>>(why@),
        call_or_why(Ok(call)) == Ok::<KernelCallModel, Seq<char>>(call@),
        call_or_why(Err(why)) == Err::<KernelCallModel, Seq<char>>(why@),
{
}

} // verus!
