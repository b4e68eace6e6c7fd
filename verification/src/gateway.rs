//! The key gateway: nothing is decrypted but through it. Closing it drops the key and ends all
//! sessions.
//!
//! The key itself, and what is computed with it, is the business of a kernel outside this crate.
//! The gateway says what the kernel is to do, and keeps account of what it did.

use crate::text::same;
use vstd::prelude::*;

verus! {

#[derive(Debug, Clone, Copy, PartialEq, Eq, Structural)]
pub enum GatewayState {
    Open,
    Closed,
}

/// What the kernel is asked to do, over texts `T` and bytes `B`.
pub enum KernelCallOf<T, B> {
    /// Derive the key from the password.
    Unlock { password: T },
    /// Derive the key from the password, and keep it only if it fits the token.
    UnlockWithVerify { password: T, token: B },
    /// Make a token that later passwords can be tried on.
    GenerateToken,
    Encrypt(B),
    Decrypt(B),
    /// Drop the key.
    Lock,
}

pub type KernelCall = KernelCallOf<String, Vec<u8>>;

pub type KernelCallModel = KernelCallOf<Seq<char>, Seq<u8>>;

impl View for KernelCallOf<String, Vec<u8>> {
    type V = KernelCallModel;

    open spec fn view(&self) -> KernelCallModel {
        match *self {
            KernelCallOf::Unlock { password } => KernelCallOf::Unlock { password: password@ },
            KernelCallOf::UnlockWithVerify { password, token } => KernelCallOf::UnlockWithVerify {
                password: password@,
                token: token@,
            },
            KernelCallOf::GenerateToken => KernelCallOf::GenerateToken,
            KernelCallOf::Encrypt(data) => KernelCallOf::Encrypt(data@),
            KernelCallOf::Decrypt(data) => KernelCallOf::Decrypt(data@),
            KernelCallOf::Lock => KernelCallOf::Lock,
        }
    }
}

/// What an attempt to unlock came to: the key was derived, or it was tried on the token, which it
/// fitted or not, or which could not be tried.
pub enum Unlocking {
    Derived,
    Tried(Result<bool, String>),
}

/// The sessions that are open on a vault, by their ids.
pub trait SessionRegistry {
    /// The directories of the registered sessions.
    spec fn registered(&self) -> Map<Seq<char>, Seq<char>>;

    fn register(&mut self, id: &str, work_dir: &str)
        ensures
            final(self).registered() == old(self).registered().insert(id@, work_dir@),
    ;

    fn unregister(&mut self, id: &str)
        ensures
            final(self).registered() == old(self).registered().remove(id@),
    ;
}

/// An open session, and whether it has been ended from outside.
pub struct SessionHandle {
    pub work_dir: String,
    pub terminate: bool,
}

/// A session under its id.
pub struct Registered {
    pub id: String,
    pub handle: SessionHandle,
}

pub struct KeyGateway {
    unlocked: bool,
    salt: Vec<u8>,
    verify_token: Option<Vec<u8>>,
    sessions: Vec<Registered>,
    closed_at: Option<String>,
}

/// The mathematical content of a gateway.
pub struct Gateway {
    /// The kernel holds a key, as far as the gateway has been told.
    pub unlocked: bool,
    pub salt: Seq<u8>,
    pub token: Option<Seq<u8>>,
    /// The directories of the open sessions, by their ids.
    pub sessions: Map<Seq<char>, Seq<char>>,
    /// When it was last closed.
    pub closed_at: Option<Seq<char>>,
}

pub open spec fn session_map(v: Seq<Registered>) -> Map<Seq<char>, Seq<char>>
    decreases v.len(),
{
    if v.len() == 0 {
        Map::empty()
    } else {
        session_map(v.drop_last()).insert(v.last().id@, v.last().handle.work_dir@)
    }
}

/// No id stands twice, and no listed session has been ended.
pub open spec fn orderly(v: Seq<Registered>) -> bool {
    &&& forall|i: int, j: int| 0 <= i < j < v.len() ==> #[trigger] v[i].id@ != #[trigger] v[j].id@
    &&& forall|i: int| 0 <= i < v.len() ==> !(#[trigger] v[i]).handle.terminate
}

impl View for KeyGateway {
    type V = Gateway;

    closed spec fn view(&self) -> Gateway {
        Gateway {
            unlocked: self.unlocked,
            salt: self.salt@,
            token: match self.verify_token {
                Some(t) => Some(t@),
                None => None,
            },
            sessions: session_map(self.sessions@),
            closed_at: match self.closed_at {
                Some(s) => Some(s@),
                None => None,
            },
        }
    }
}

/// A gateway that has just been made.
pub open spec fn fresh_gateway(salt: Seq<u8>, token: Option<Seq<u8>>) -> Gateway {
    Gateway { unlocked: false, salt, token, sessions: Map::empty(), closed_at: None }
}

pub open spec fn gate_closed() -> Seq<char> {
    "key gateway closed — all ciphertext is inert"@
}

/// What the kernel is asked to do with a password: where there is a token, the password is tried.
pub open spec fn opening(g: Gateway, password: Seq<char>) -> KernelCallModel {
    match g.token {
        Some(token) => KernelCallOf::UnlockWithVerify { password, token },
        None => KernelCallOf::Unlock { password },
    }
}

/// Whether an attempt to unlock opened the gateway, and if not, why.
pub open spec fn unlocking_result(u: Unlocking) -> Result<(), Seq<char>> {
    match u {
        Unlocking::Derived => Ok(()),
        Unlocking::Tried(Ok(true)) => Ok(()),
        Unlocking::Tried(Ok(false)) => Err("wrong password"@),
        Unlocking::Tried(Err(why)) => Err(why@),
    }
}

/// A gateway after closing: no key, no sessions, and the time on record.
pub open spec fn shut(g: Gateway, stamp: Seq<char>) -> Gateway {
    Gateway { unlocked: false, sessions: Map::empty(), closed_at: Some(stamp), ..g }
}

pub open spec fn said(r: Result<(), String>) -> Result<(), Seq<char>> {
    match r {
        Ok(()) => Ok(()),
        Err(why) => Err(why@),
    }
}

/// A copy of the bytes.
pub fn copy_bytes(v: &Vec<u8>) -> (r: Vec<u8>)
    ensures
        r@ == v@,
{
    let mut r: Vec<u8> = Vec::new();
    let mut i: usize = 0;
    while i < v.len()
        invariant
            i <= v@.len(),
            r@ == v@.take(i as int),
        decreases v@.len() - i,
    {
        r.push(v[i]);
        i += 1;
        assert(r@ =~= v@.take(i as int));
    }
    assert(v@.take(v@.len() as int) =~= v@);
    r
}

/// The sessions but for the one with the given id.
fn others(v: &Vec<Registered>, id: &str) -> (r: Vec<Registered>)
    requires
        orderly(v@),
    ensures
        orderly(r@),
        session_map(r@) == session_map(v@).remove(id@),
        forall|i: int| 0 <= i < r@.len() ==> (#[trigger] r@[i]).id@ != id@,
{
    let ghost all = v@;
    let mut r: Vec<Registered> = Vec::new();
    let mut i: usize = 0;
    assert(all.take(0) =~= seq![]);
    assert(session_map(r@) =~= session_map(all.take(0)).remove(id@));
    while i < v.len()
        invariant
            all == v@,
            orderly(v@),
            i <= v@.len(),
            orderly(r@),
            session_map(r@) == session_map(all.take(i as int)).remove(id@),
            forall|k: int| 0 <= k < r@.len() ==> (#[trigger] r@[k]).id@ != id@,
            forall|k: int|
                0 <= k < r@.len() ==> exists|q: int|
                    0 <= q < i && (#[trigger] all[q]).id@ == (#[trigger] r@[k]).id@,
        decreases v@.len() - i,
    {
        let ghost so_far = r@;
        assert(all.take(i + 1).drop_last() =~= all.take(i as int));
        assert(all.take(i + 1).last() == all[i as int]);
        if !same(v[i].id.as_str(), id) {
            let e = Registered {
                id: v[i].id.clone(),
                handle: SessionHandle {
                    work_dir: v[i].handle.work_dir.clone(),
                    terminate: v[i].handle.terminate,
                },
            };
            r.push(e);
            assert(r@.drop_last() =~= so_far);
            assert forall|a: int, b: int| 0 <= a < b < r@.len() implies #[trigger] r@[a].id@
                != #[trigger] r@[b].id@ by {
                if b == r@.len() - 1 {
                    assert(r@[a] == so_far[a]);
                    let q = choose|q: int|
                        0 <= q < i && (#[trigger] all[q]).id@ == so_far[a].id@;
                    assert(all[q].id@ != all[i as int].id@);
                }
            }
            assert(r@[r@.len() - 1].id@ == all[i as int].id@);
            assert(session_map(r@) =~= session_map(all.take(i + 1)).remove(id@));
            assert forall|k: int| 0 <= k < r@.len() implies exists|q: int|
                0 <= q < i + 1 && (#[trigger] all[q]).id@ == (#[trigger] r@[k]).id@ by {
                if k < so_far.len() {
                    assert(r@[k] == so_far[k]);
                }
            }
        } else {
            assert(session_map(r@) =~= session_map(all.take(i + 1)).remove(id@));
        }
        i += 1;
    }
    assert(all.take(all.len() as int) =~= all);
    r
}

proof fn lemma_ids(v: Seq<Registered>)
    requires
        orderly(v),
    ensures
        session_map(v).dom().finite(),
        session_map(v).dom().len() == v.len(),
        forall|id: Seq<char>| #[trigger]
            session_map(v).dom().contains(id) ==> exists|i: int|
                0 <= i < v.len() && (#[trigger] v[i]).id@ == id,
    decreases v.len(),
{
    if v.len() > 0 {
        let less = v.drop_last();
        assert forall|i: int, j: int| 0 <= i < j < less.len() implies #[trigger] less[i].id@
            != #[trigger] less[j].id@ by {
            assert(v[i].id@ != v[j].id@);
        }
        assert forall|i: int| 0 <= i < less.len() implies !(#[trigger] less[i]).handle.terminate by {
            assert(!v[i].handle.terminate);
        }
        lemma_ids(less);
        let id = v.last().id@;
        if session_map(less).dom().contains(id) {
            let i = choose|i: int| 0 <= i < less.len() && (#[trigger] less[i]).id@ == id;
            assert(v[i].id@ != v[v.len() - 1].id@);
        }
        assert(session_map(v).dom() =~= session_map(less).dom().insert(id));
        assert forall|x: Seq<char>| #[trigger] session_map(v).dom().contains(x) implies exists|i: int|
            0 <= i < v.len() && (#[trigger] v[i]).id@ == x by {
            if x == id {
                assert(v[v.len() - 1].id@ == x);
            } else {
                assert(session_map(less).dom().contains(x));
                let i = choose|i: int| 0 <= i < less.len() && (#[trigger] less[i]).id@ == x;
                assert(v[i].id@ == x);
            }
        }
    } else {
        assert(session_map(v).dom() =~= Set::empty());
    }
}

impl KeyGateway {
    #[verifier::type_invariant]
    spec fn keeps_order(self) -> bool {
        orderly(self.sessions@)
    }

    /// A gateway for a new vault, from the salt of a new kernel.
    pub fn new(kernel: Result<Vec<u8>, String>) -> (r: Result<KeyGateway, String>)
        ensures
            match kernel {
                Ok(salt) => r matches Ok(g) && g@ == fresh_gateway(salt@, None),
                Err(why) => r matches Err(e) && e@ == why@,
            },
    {
        match kernel {
            Ok(salt) => {
                let sessions: Vec<Registered> = Vec::new();
                Ok(
                    KeyGateway {
                        unlocked: false,
                        salt,
                        verify_token: None,
                        sessions,
                        closed_at: None,
                    },
                )
            },
            Err(why) => Err(why),
        }
    }

    /// A gateway for the vault that a container holds.
    pub fn from_container(salt: Vec<u8>, verify_token: Vec<u8>) -> (g: KeyGateway)
        ensures
            g@ == fresh_gateway(salt@, Some(verify_token@)),
    {
        let sessions: Vec<Registered> = Vec::new();
        KeyGateway {
            unlocked: false,
            salt,
            verify_token: Some(verify_token),
            sessions,
            closed_at: None,
        }
    }

    pub fn salt(&self) -> (s: &Vec<u8>)
        ensures
            s@ == self@.salt,
    {
        &self.salt
    }

    pub fn state(&self) -> (s: GatewayState)
        ensures
            s == (if self@.unlocked {
                GatewayState::Open
            } else {
                GatewayState::Closed
            }),
    {
        if self.unlocked {
            GatewayState::Open
        } else {
            GatewayState::Closed
        }
    }

    /// When the gateway was last closed.
    pub fn closed_at(&self) -> (t: Option<String>)
        ensures
            (match t {
                Some(s) => Some(s@),
                None => None,
            }) == self@.closed_at,
    {
        match &self.closed_at {
            Some(s) => Some(s.clone()),
            None => None,
        }
    }

    /// What the kernel is to do to open the gateway with the given password.
    pub fn open(&self, password: &str) -> (call: KernelCall)
        ensures
            call@ == opening(self@, password@),
    {
        match &self.verify_token {
            Some(t) => KernelCallOf::UnlockWithVerify {
                password: password.to_owned(),
                token: copy_bytes(t),
            },
            None => KernelCallOf::Unlock { password: password.to_owned() },
        }
    }

    /// Takes note of what an attempt to unlock came to, and of whether the kernel holds a key
    /// after it.
    pub fn opened(&mut self, result: Unlocking, unlocked: bool) -> (r: Result<(), String>)
        ensures
            final(self)@ == (Gateway { unlocked, ..old(self)@ }),
            said(r) == unlocking_result(result),
    {
        proof {
            use_type_invariant(&*self);
        }
        self.unlocked = unlocked;
        match result {
            Unlocking::Derived => Ok(()),
            Unlocking::Tried(Ok(fits)) => if fits {
                Ok(())
            } else {
                Err("wrong password".to_owned())
            },
            Unlocking::Tried(Err(why)) => Err(why),
        }
    }

    /// The token that passwords are tried on, if there is one yet.
    pub fn verify_token(&self) -> (t: Option<Vec<u8>>)
        ensures
            (match t {
                Some(v) => Some(v@),
                None => None,
            }) == self@.token,
    {
        match &self.verify_token {
            Some(t) => Some(copy_bytes(t)),
            None => None,
        }
    }

    /// The token that passwords are tried on. A token that was there before stays; otherwise the
    /// one that the kernel generated is kept, unless that failed.
    pub fn ensure_verify_token(&mut self, generated: Result<Vec<u8>, String>) -> (r: Result<
        Vec<u8>,
        String,
    >)
        ensures
            match (old(self)@.token, generated) {
                (Some(t), _) => final(self)@ == old(self)@ && (r matches Ok(v) && v@ == t),
                (None, Ok(t)) => final(self)@ == (Gateway { token: Some(t@), ..old(self)@ }) && (
                r matches Ok(v) && v@ == t@),
                (None, Err(why)) => final(self)@ == old(self)@ && (r matches Err(e) && e@ == why@),
            },
    {
        proof {
            use_type_invariant(&*self);
        }
        match self.verify_token() {
            Some(t) => Ok(t),
            None => match generated {
                Ok(t) => {
                    let copy = copy_bytes(&t);
                    self.verify_token = Some(t);
                    Ok(copy)
                },
                Err(why) => Err(why),
            },
        }
    }

    /// Closes the gateway at the given time: the kernel is to drop the key, every session is ended
    /// and handed out, and none is left. The gateway can be opened again with the password.
    pub fn close(&mut self, stamp: String) -> (r: (KernelCall, Vec<Registered>))
        ensures
            final(self)@ == shut(old(self)@, stamp@),
            r.0@ == KernelCallModel::Lock,
            session_map(r.1@) == old(self)@.sessions,
            forall|i: int| 0 <= i < r.1@.len() ==> (#[trigger] r.1@[i]).handle.terminate,
    {
        proof {
            use_type_invariant(&*self);
        }
        let mut ended: Vec<Registered> = Vec::new();
        let ghost all = self.sessions@;
        let mut i: usize = 0;
        assert(all.take(0) =~= seq![]);
        while i < self.sessions.len()
            invariant
                all == self.sessions@,
                i <= self.sessions@.len(),
                session_map(ended@) == session_map(all.take(i as int)),
                forall|k: int| 0 <= k < ended@.len() ==> (#[trigger] ended@[k]).handle.terminate,
            decreases self.sessions@.len() - i,
        {
            let ghost so_far = ended@;
            assert(all.take(i + 1).drop_last() =~= all.take(i as int));
            assert(all.take(i + 1).last() == all[i as int]);
            ended.push(
                Registered {
                    id: self.sessions[i].id.clone(),
                    handle: SessionHandle {
                        work_dir: self.sessions[i].handle.work_dir.clone(),
                        terminate: true,
                    },
                },
            );
            assert(ended@.drop_last() =~= so_far);
            i += 1;
        }
        assert(all.take(all.len() as int) =~= all);
        self.unlocked = false;
        let none: Vec<Registered> = Vec::new();
        self.sessions = none;
        self.closed_at = Some(stamp);
        (KernelCallOf::Lock, ended)
    }

    /// How many sessions are open.
    pub fn active_sessions(&self) -> (n: usize)
        ensures
            self@.sessions.dom().finite(),
            n == self@.sessions.dom().len(),
    {
        proof {
            use_type_invariant(self);
            lemma_ids(self.sessions@);
        }
        self.sessions.len()
    }

    /// What the kernel is to do to encrypt, unless the gateway is closed.
    pub fn encrypt(&self, plaintext: Vec<u8>) -> (r: Result<KernelCall, String>)
        ensures
            if self@.unlocked {
                r matches Ok(call) && call@ == KernelCallModel::Encrypt(plaintext@)
            } else {
                r matches Err(why) && why@ == gate_closed()
            },
    {
        match self.guard() {
            Ok(()) => Ok(KernelCallOf::Encrypt(plaintext)),
            Err(why) => Err(why),
        }
    }

    /// What the kernel is to do to decrypt, unless the gateway is closed.
    pub fn decrypt(&self, ciphertext: Vec<u8>) -> (r: Result<KernelCall, String>)
        ensures
            if self@.unlocked {
                r matches Ok(call) && call@ == KernelCallModel::Decrypt(ciphertext@)
            } else {
                r matches Err(why) && why@ == gate_closed()
            },
    {
        match self.guard() {
            Ok(()) => Ok(KernelCallOf::Decrypt(ciphertext)),
            Err(why) => Err(why),
        }
    }

    /// Fails if the gateway is closed.
    pub fn guard(&self) -> (r: Result<(), String>)
        ensures
            said(r) == (if self@.unlocked {
                Ok(())
            } else {
                Err(gate_closed())
            }),
    {
        if self.unlocked {
            Ok(())
        } else {
            Err("key gateway closed — all ciphertext is inert".to_owned())
        }
    }
}

impl SessionRegistry for KeyGateway {
    open spec fn registered(&self) -> Map<Seq<char>, Seq<char>> {
        self@.sessions
    }

    fn register(&mut self, id: &str, work_dir: &str)
        ensures
            final(self)@ == (Gateway {
                sessions: old(self)@.sessions.insert(id@, work_dir@),
                ..old(self)@
            }),
    {
        proof {
            use_type_invariant(&*self);
        }
        let ghost before = session_map(self.sessions@);
        let mut sessions = others(&self.sessions, id);
        let ghost rest = sessions@;
        sessions.push(
            Registered {
                id: id.to_owned(),
                handle: SessionHandle { work_dir: work_dir.to_owned(), terminate: false },
            },
        );
        assert(sessions@.drop_last() =~= rest);
        assert(session_map(sessions@) =~= before.insert(id@, work_dir@));
        assert forall|i: int, j: int| 0 <= i < j < sessions@.len() implies #[trigger] sessions@[i].id@
            != #[trigger] sessions@[j].id@ by {
            assert(sessions@[i] == rest[i]);
            if j < rest.len() {
                assert(sessions@[j] == rest[j]);
            }
        }
        assert(orderly(sessions@));
        self.sessions = sessions;
    }

    fn unregister(&mut self, id: &str)
        ensures
            final(self)@ == (Gateway {
                sessions: old(self)@.sessions.remove(id@),
                ..old(self)@
            }),
    {
        proof {
            use_type_invariant(&*self);
        }
        self.sessions = others(&self.sessions, id);
    }
}

/// Closing the gateway ends every session, after which nothing is encrypted or decrypted until the
/// gateway is opened again. The salt and the token stay, so that it can be.
pub proof fn law_closing_ends_everything(g: Gateway, stamp: Seq<char>)
    ensures
        !shut(g, stamp).unlocked,
        shut(g, stamp).sessions.dom() =~= Set::<Seq<char>>::empty(),
        shut(g, stamp).closed_at == Some(stamp),
        shut(g, stamp).salt == g.salt,
        shut(g, stamp).token == g.token,
        forall|password: Seq<char>| #[trigger]
            opening(shut(g, stamp), password) == opening(g, password),
{
}

/// A gateway tries a password on its token where it has one, and otherwise takes it; an attempt
/// succeeds exactly if a key was derived or fitted the token, and else says why it did not.
pub proof fn law_passwords_are_tried(g: Gateway, password: Seq<char>, u: Unlocking)
    ensures
        match opening(g, password) {
            KernelCallOf::UnlockWithVerify { password: p, token } => p == password && g.token
                == Some(token),
            KernelCallOf::Unlock { password: p } => p == password && g.token is None,
            _ => false,
        },
        unlocking_result(u) is Ok <==> !(u matches Unlocking::Tried(r) && !(r matches Ok(fits)
            && fits)),
        u matches Unlocking::Tried(Ok(fits)) ==> !fits ==> unlocking_result(u) == Err::<
            (),
            Seq<char>,
        >("wrong password"@),
        u matches Unlocking::Tried(Err(why)) ==> unlocking_result(u) == Err::<(), Seq<char>>(why@),
        gate_closed() == "key gateway closed — all ciphertext is inert"@,
{
}

/// A gateway that has just been made is closed, has no session and has never been closed before.
pub proof fn law_new_gateways_are_closed(salt: Seq<u8>, token: Option<Seq<u8>>)
    ensures
        ({
            let g = fresh_gateway(salt, token);
            &&& !g.unlocked
            &&& g.salt == salt
            &&& g.token == token
            &&& g.closed_at is None
            &&& forall|id: Seq<char>| !(#[trigger] g.sessions.dom().contains(id))
        }),
{
}

/// The sessions of a list are known by their ids: each id that is listed leads to the directory of
/// the last session that is listed under it, and no other leads anywhere.
pub proof fn law_sessions_are_known_by_their_ids(v: Seq<Registered>, e: Registered, id: Seq<char>)
    ensures
        session_map(v.push(e)).dom().contains(id) <==> id == e.id@ || session_map(
            v,
        ).dom().contains(id),
        session_map(v.push(e))[e.id@] == e.handle.work_dir@,
        id != e.id@ && session_map(v).dom().contains(id) ==> session_map(v.push(e))[id]
            == session_map(v)[id],
        session_map(seq![]).dom() =~= Set::<Seq<char>>::empty(),
{
    assert(v.push(e).drop_last() =~= v);
}

/// The model of a verdict is the verdict, with every character of why it was against.
pub proof fn law_verdicts_are_modelled_whole(why: String)
    ensures
        said(Ok(())) == Ok::<(), Seq<char>>(()),
        said(Err(why)) == Err::<(), Seq<char>>(why@),
{
}

} // verus!
