//! The vault container: a header, then chunks, each behind its length.
//!
//! Layout: `MWVAULT1`, one version byte, the 16 salt bytes, and then the password token and the
//! sealed archive, each as eight length bytes (least significant first) and its content.

use vstd::prelude::*;

verus! {

pub const VERSION: u8 = 0x01;

pub const SALT_LEN: usize = 16;

pub const HEADER_LEN: usize = 25;

/// The eight bytes that every container starts with, `MWVAULT1`.
pub open spec fn magic() -> Seq<u8> {
    seq![0x4du8, 0x57u8, 0x56u8, 0x41u8, 0x55u8, 0x4cu8, 0x54u8, 0x31u8]
}

/// The header for a salt: magic, version, and the first 16 salt bytes.
pub open spec fn header_bytes(salt: Seq<u8>) -> Seq<u8> {
    magic().push(VERSION) + (if salt.len() <= SALT_LEN {
        salt
    } else {
        salt.take(SALT_LEN as int)
    })
}

/// A container can be told by its magic, and by being long enough for a header.
pub open spec fn has_header(data: Seq<u8>) -> bool {
    data.len() >= HEADER_LEN && data.take(8) == magic()
}

#[derive(Debug, PartialEq, Eq, Structural, Clone, Copy)]
pub enum ContainerError {
    /// The data does not start with a container header.
    NotAContainer,
    /// A chunk is missing or runs past the end.
    Truncated,
}

impl ContainerError {
    pub open spec fn text(self) -> Seq<char> {
        match self {
            ContainerError::NotAContainer => "not a mindwiki vault container"@,
            ContainerError::Truncated => "vault container is truncated"@,
        }
    }

    pub fn message(&self) -> (s: String)
        ensures
            s@ == self.text(),
    {
        match self {
            ContainerError::NotAContainer => "not a mindwiki vault container".to_owned(),
            ContainerError::Truncated => "vault container is truncated".to_owned(),
        }
    }
}

fn magic_bytes() -> (v: Vec<u8>)
    ensures
        v@ == magic(),
{
    vec![0x4du8, 0x57u8, 0x56u8, 0x41u8, 0x55u8, 0x4cu8, 0x54u8, 0x31u8]
}

fn push_bytes(v: &mut Vec<u8>, data: &[u8], from: usize, to: usize)
    requires
        from <= to <= data@.len(),
    ensures
        final(v)@ == old(v)@ + data@.subrange(from as int, to as int),
{
    let ghost start = v@;
    let mut i: usize = from;
    while i < to
        invariant
            from <= i <= to <= data@.len(),
            v@ == start + data@.subrange(from as int, i as int),
        decreases to - i,
    {
        v.push(data[i]);
        i += 1;
        assert(v@ =~= start + data@.subrange(from as int, i as int));
    }
}

/// The container header: magic, version, salt.
pub fn header(salt: &[u8]) -> (h: Vec<u8>)
    ensures
        h@ == header_bytes(salt@),
{
    let mut h = magic_bytes();
    h.push(VERSION);
    let n: usize = if salt.len() <= SALT_LEN {
        salt.len()
    } else {
        SALT_LEN
    };
    push_bytes(&mut h, salt, 0, n);
    assert(salt@.subrange(0, salt@.len() as int) =~= salt@);
    h
}

fn starts_with_magic(data: &[u8]) -> (b: bool)
    requires
        data@.len() >= 8,
    ensures
        b == (data@.take(8) == magic()),
{
    let m = magic_bytes();
    let mut i: usize = 0;
    while i < 8
        invariant
            i <= 8,
            m@ == magic(),
            data@.len() >= 8,
            forall|j: int| 0 <= j < i ==> data@[j] == magic()[j],
        decreases 8 - i,
    {
        if data[i] != m[i] {
            assert(data@.take(8)[i as int] != magic()[i as int]);
            return false;
        }
        i += 1;
    }
    assert(data@.take(8) =~= magic());
    true
}

/// Checks the container header and gives its version and salt.
pub fn validate(data: &[u8]) -> (r: Result<(u8, &[u8]), ContainerError>)
    ensures
        r is Ok <==> has_header(data@),
        r matches Ok(p) ==> p.0 == data@[8] && p.1@ == data@.subrange(9, 25),
        r matches Err(e) ==> e == ContainerError::NotAContainer,
{
    if data.len() < HEADER_LEN || !starts_with_magic(data) {
        return Err(ContainerError::NotAContainer);
    }
    Ok((data[8], vstd::slice::slice_subrange(data, 9, 25)))
}

/// What a container holds.
#[derive(Debug)]
pub struct ContainerData {
    pub salt: Vec<u8>,
    pub verify_token: Vec<u8>,
    pub payload: Vec<u8>,
}

/// The mathematical content of a container.
pub struct Contents {
    pub salt: Seq<u8>,
    pub verify_token: Seq<u8>,
    pub payload: Seq<u8>,
}

impl View for ContainerData {
    type V = Contents;

    open spec fn view(&self) -> Contents {
        Contents { salt: self.salt@, verify_token: self.verify_token@, payload: self.payload@ }
    }
}

/// `n` as eight bytes, least significant first.
pub open spec fn length_bytes(n: nat) -> Seq<u8> {
    Seq::new(8, |i: int| ((n as int / place(i)) % 256) as u8)
}

/// 256 to the power `i`, for the eight places of a length.
pub open spec fn place(i: int) -> int {
    if i == 0 {
        1
    } else if i == 1 {
        0x100
    } else if i == 2 {
        0x1_0000
    } else if i == 3 {
        0x100_0000
    } else if i == 4 {
        0x1_0000_0000
    } else if i == 5 {
        0x100_0000_0000
    } else if i == 6 {
        0x1_0000_0000_0000
    } else {
        0x100_0000_0000_0000
    }
}

/// The length that eight bytes give.
pub open spec fn length_at(data: Seq<u8>, at: int) -> int {
    data[at] + data[at + 1] * 0x100 + data[at + 2] * 0x1_0000 + data[at + 3] * 0x100_0000 + data[at
        + 4] * 0x1_0000_0000 + data[at + 5] * 0x100_0000_0000 + data[at + 6] * 0x1_0000_0000_0000
        + data[at + 7] * 0x100_0000_0000_0000
}

pub open spec fn chunk(content: Seq<u8>) -> Seq<u8> {
    length_bytes(content.len()) + content
}

/// The bytes of a container.
pub open spec fn container_bytes(c: Contents) -> Seq<u8> {
    header_bytes(c.salt) + chunk(c.verify_token) + chunk(c.payload)
}

/// A chunk stands at `at`: eight length bytes and that many bytes after them.
pub open spec fn chunk_fits(data: Seq<u8>, at: int) -> bool {
    at + 8 <= data.len() && at + 8 + length_at(data, at) <= data.len()
}

pub open spec fn chunk_at(data: Seq<u8>, at: int) -> Seq<u8> {
    data.subrange(at + 8, at + 8 + length_at(data, at))
}

pub open spec fn chunk_end(data: Seq<u8>, at: int) -> int {
    at + 8 + length_at(data, at)
}

/// A header and two chunks that fill the data.
pub open spec fn is_container(data: Seq<u8>) -> bool {
    &&& has_header(data)
    &&& chunk_fits(data, 25)
    &&& chunk_fits(data, chunk_end(data, 25))
    &&& chunk_end(data, chunk_end(data, 25)) == data.len()
}

/// What a container's bytes hold.
pub open spec fn contents_of(data: Seq<u8>) -> Contents {
    Contents {
        salt: data.subrange(9, 25),
        verify_token: chunk_at(data, 25),
        payload: chunk_at(data, chunk_end(data, 25)),
    }
}

fn push_length(v: &mut Vec<u8>, n: usize)
    ensures
        final(v)@ == old(v)@ + length_bytes(n as nat),
{
    let ghost start = v@;
    let m: u64 = n as u64;
    v.push((m % 256) as u8);
    v.push(((m / 0x100) % 256) as u8);
    v.push(((m / 0x1_0000) % 256) as u8);
    v.push(((m / 0x100_0000) % 256) as u8);
    v.push(((m / 0x1_0000_0000) % 256) as u8);
    v.push(((m / 0x100_0000_0000) % 256) as u8);
    v.push(((m / 0x1_0000_0000_0000) % 256) as u8);
    v.push(((m / 0x100_0000_0000_0000) % 256) as u8);
    assert(v@ =~= start + length_bytes(n as nat));
}

/// The bytes of a container.
pub fn encode(c: &ContainerData) -> (v: Vec<u8>)
    ensures
        v@ == container_bytes(c@),
{
    let mut v = header(c.salt.as_slice());
    push_length(&mut v, c.verify_token.len());
    push_bytes(&mut v, c.verify_token.as_slice(), 0, c.verify_token.len());
    push_length(&mut v, c.payload.len());
    push_bytes(&mut v, c.payload.as_slice(), 0, c.payload.len());
    assert(c.verify_token@.subrange(0, c.verify_token@.len() as int) =~= c.verify_token@);
    assert(c.payload@.subrange(0, c.payload@.len() as int) =~= c.payload@);
    assert(v@ =~= container_bytes(c@));
    v
}

/// The chunk at `at` and the place after it.
fn read_chunk(data: &[u8], at: usize) -> (r: Option<(Vec<u8>, usize)>)
    requires
        at <= data@.len(),
    ensures
        r is Some <==> chunk_fits(data@, at as int),
        r matches Some(p) ==> p.0@ == chunk_at(data@, at as int) && p.1 == chunk_end(
            data@,
            at as int,
        ),
{
    if data.len() - at < 8 {
        return None;
    }
    let n: u64 = data[at] as u64 + data[at + 1] as u64 * 0x100 + data[at + 2] as u64 * 0x1_0000
        + data[at + 3] as u64 * 0x100_0000 + data[at + 4] as u64 * 0x1_0000_0000 + data[at
        + 5] as u64 * 0x100_0000_0000 + data[at + 6] as u64 * 0x1_0000_0000_0000 + data[at
        + 7] as u64 * 0x100_0000_0000_0000;
    let room: u64 = (data.len() - at - 8) as u64;
    if n > room {
        return None;
    }
    let mut content: Vec<u8> = Vec::new();
    let stop: usize = at + 8 + n as usize;
    push_bytes(&mut content, data, at + 8, stop);
    assert(content@ =~= chunk_at(data@, at as int));
    Some((content, stop))
}

/// Reads a container.
pub fn decode(data: &[u8]) -> (r: Result<ContainerData, ContainerError>)
    ensures
        r is Ok <==> is_container(data@),
        r matches Ok(c) ==> c@ == contents_of(data@),
        r matches Err(e) ==> e == (if has_header(data@) {
            ContainerError::Truncated
        } else {
            ContainerError::NotAContainer
        }),
{
    match validate(data) {
        Err(e) => {
            return Err(e);
        },
        Ok(_) => {},
    }
    let (verify_token, next) = match read_chunk(data, HEADER_LEN) {
        Some(p) => p,
        None => {
            return Err(ContainerError::Truncated);
        },
    };
    let (payload, end) = match read_chunk(data, next) {
        Some(p) => p,
        None => {
            return Err(ContainerError::Truncated);
        },
    };
    if end != data.len() {
        return Err(ContainerError::Truncated);
    }
    let mut salt: Vec<u8> = Vec::new();
    push_bytes(&mut salt, data, 9, 25);
    assert(salt@ =~= data@.subrange(9, 25));
    Ok(ContainerData { salt, verify_token, payload })
}

proof fn lemma_bytes_of(m: int)
    requires
        0 <= m <= u64::MAX,
    ensures
        m == m % 256 + (m / 0x100) % 256 * 0x100 + (m / 0x1_0000) % 256 * 0x1_0000 + (m
            / 0x100_0000) % 256 * 0x100_0000 + (m / 0x1_0000_0000) % 256 * 0x1_0000_0000 + (m
            / 0x100_0000_0000) % 256 * 0x100_0000_0000 + (m / 0x1_0000_0000_0000) % 256
            * 0x1_0000_0000_0000 + (m / 0x100_0000_0000_0000) % 256 * 0x100_0000_0000_0000,
{
    let q1 = m / 0x100;
    let q2 = q1 / 0x100;
    let q3 = q2 / 0x100;
    let q4 = q3 / 0x100;
    let q5 = q4 / 0x100;
    let q6 = q5 / 0x100;
    let q7 = q6 / 0x100;
    assert(q2 == m / 0x1_0000);
    assert(q3 == m / 0x100_0000);
    assert(q4 == m / 0x1_0000_0000);
    assert(q5 == m / 0x100_0000_0000);
    assert(q6 == m / 0x1_0000_0000_0000);
    assert(q7 == m / 0x100_0000_0000_0000);
    assert(q7 < 256);
}

proof fn lemma_length(n: nat, data: Seq<u8>, at: int)
    requires
        n <= u64::MAX,
        0 <= at,
        at + 8 <= data.len(),
        data.subrange(at, at + 8) == length_bytes(n),
    ensures
        length_at(data, at) == n,
{
    let b = length_bytes(n);
    assert forall|i: int| 0 <= i < 8 implies #[trigger] data[at + i] == b[i] by {
        assert(data.subrange(at, at + 8)[i] == data[at + i]);
    }
    assert(data[at + 0] == b[0]);
    assert(data[at + 1] == b[1]);
    assert(data[at + 2] == b[2]);
    assert(data[at + 3] == b[3]);
    assert(data[at + 4] == b[4]);
    assert(data[at + 5] == b[5]);
    assert(data[at + 6] == b[6]);
    assert(data[at + 7] == b[7]);
    lemma_bytes_of(n as int);
}

/// What is written into a container is read back from it.
pub proof fn law_container_roundtrip(c: Contents)
    requires
        c.salt.len() == SALT_LEN,
        c.verify_token.len() <= u64::MAX,
        c.payload.len() <= u64::MAX,
    ensures
        is_container(container_bytes(c)),
        contents_of(container_bytes(c)) == c,
{
    let d = container_bytes(c);
    let at: int = 25 + 8 + c.verify_token.len() as int;
    assert(d.take(8) =~= magic());
    assert(d.subrange(9, 25) =~= c.salt);
    assert(d.subrange(25, 33) =~= length_bytes(c.verify_token.len()));
    lemma_length(c.verify_token.len(), d, 25);
    assert(chunk_at(d, 25) =~= c.verify_token);
    assert(chunk_end(d, 25) == at);
    assert(d.subrange(at, at + 8) =~= length_bytes(c.payload.len()));
    lemma_length(c.payload.len(), d, at);
    assert(chunk_at(d, at) =~= c.payload);
}

/// A header is accepted as one, and gives back its version and salt.
pub proof fn law_header_roundtrip(salt: Seq<u8>)
    requires
        salt.len() >= SALT_LEN,
    ensures
        has_header(header_bytes(salt)),
        header_bytes(salt)[8] == VERSION,
        header_bytes(salt).subrange(9, 25) == salt.take(16),
{
    assert(header_bytes(salt).take(8) =~= magic());
    assert(header_bytes(salt).subrange(9, 25) =~= salt.take(16));
}

/// How a container is laid out, byte by byte: the eight letters `MWVAULT1`, a version of one, the salt,
/// and then the token and the payload, each behind its length in eight bytes, the lowest first.
pub proof fn law_container_layout(c: Contents)
    requires
        c.salt.len() == 16,
        c.verify_token.len() <= u64::MAX,
        c.payload.len() <= u64::MAX,
    ensures
        ({
            let d = container_bytes(c);
            let n = c.verify_token.len() as int;
            &&& d.len() == 41 + n + c.payload.len()
            &&& d[0] == 0x4d && d[1] == 0x57 && d[2] == 0x56 && d[3] == 0x41
            &&& d[4] == 0x55 && d[5] == 0x4c && d[6] == 0x54 && d[7] == 0x31
            &&& d[8] == 1
            &&& d.subrange(9, 25) == c.salt
            &&& d[25] + d[26] * 0x100 + d[27] * 0x1_0000 + d[28] * 0x100_0000 + d[29]
                * 0x1_0000_0000 + d[30] * 0x100_0000_0000 + d[31] * 0x1_0000_0000_0000 + d[32]
                * 0x100_0000_0000_0000 == n
            &&& d.subrange(33, 33 + n) == c.verify_token
            &&& d[33 + n] + d[34 + n] * 0x100 + d[35 + n] * 0x1_0000 + d[36 + n] * 0x100_0000 + d[37
                + n] * 0x1_0000_0000 + d[38 + n] * 0x100_0000_0000 + d[39 + n] * 0x1_0000_0000_0000
                + d[40 + n] * 0x100_0000_0000_0000 == c.payload.len()
            &&& d.subrange(41 + n, d.len() as int) == c.payload
        }),
{
    law_container_roundtrip(c);
    let d = container_bytes(c);
    let n = c.verify_token.len() as int;
    assert(d.take(8) == magic());
    assert(d.take(8)[0] == d[0]);
    assert(d.take(8)[1] == d[1]);
    assert(d.take(8)[2] == d[2]);
    assert(d.take(8)[3] == d[3]);
    assert(d.take(8)[4] == d[4]);
    assert(d.take(8)[5] == d[5]);
    assert(d.take(8)[6] == d[6]);
    assert(d.take(8)[7] == d[7]);
    assert(d.subrange(25, 33) =~= length_bytes(c.verify_token.len()));
    lemma_length(c.verify_token.len(), d, 25);
    assert(d.subrange(33 + n, 41 + n) =~= length_bytes(c.payload.len()));
    lemma_length(c.payload.len(), d, 33 + n);
    assert(d.subrange(33, 33 + n) =~= c.verify_token);
    assert(d.subrange(41 + n, d.len() as int) =~= c.payload);
}

/// What is taken for a container is the container of what it holds, but for its version: the bytes are
/// read as they would be written.
pub proof fn law_containers_are_read_as_written(data: Seq<u8>)
    requires
        is_container(data),
    ensures
        ({
            let c = contents_of(data);
            let d = container_bytes(c);
            &&& c.salt == data.subrange(9, 25)
            &&& data.len() == 41 + c.verify_token.len() + c.payload.len()
            &&& c.verify_token == data.subrange(33, 33 + c.verify_token.len() as int)
            &&& c.payload == data.subrange(41 + c.verify_token.len() as int, data.len() as int)
            &&& data.subrange(0, 8) == d.subrange(0, 8)
        }),
{
    let c = contents_of(data);
    assert(data.subrange(0, 8) =~= data.take(8));
    assert(container_bytes(c).subrange(0, 8) =~= magic());
}

/// What is wrong with data that is no container can be told apart, and a container is modelled with
/// every byte of it.
pub proof fn law_container_troubles_are_told_apart(c: ContainerData)
    ensures
        ContainerError::NotAContainer.text() == "not a mindwiki vault container"@,
        ContainerError::Truncated.text() == "vault container is truncated"@,
        ContainerError::NotAContainer.text() != ContainerError::Truncated.text(),
        c@.salt == c.salt@,
        c@.verify_token == c.verify_token@,
        c@.payload == c.payload@,
{
    reveal_strlit("not a mindwiki vault container");
    reveal_strlit("vault container is truncated");
    assert("not a mindwiki vault container"@[0] == 'n');
    assert("vault container is truncated"@[0] == 'v');
}

} // verus!
