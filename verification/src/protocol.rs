use vstd::prelude::*;

use crate::config::{DownloadConfig, PatchFile, ServerState};
use crate::login::{auth_code, AuthResult};

verus! {

pub const PACKET_START1: u8 = 0xAA;
pub const PACKET_START2: u8 = 0x55;
pub const PACKET_END1: u8 = 0x55;
pub const PACKET_END2: u8 = 0xAA;

pub const LS_VERSION_REQ: u8 = 0x01;
pub const LS_DOWNLOADINFO_REQ: u8 = 0x02;
pub const LS_LOGIN_REQ: u8 = 0xF3;
pub const LS_SERVER_LIST: u8 = 0xF5;
pub const LS_NEWS: u8 = 0xF6;

/// The two bytes of `v` taken modulo 2^16, least significant first: what
/// `to_le_bytes` gives for an `i16` or `u16` of that value.
pub open spec fn le16(v: int) -> Seq<u8> {
    let u = v % 0x10000;
    seq![(u % 0x100) as u8, (u / 0x100) as u8]
}

/// A packet around `payload`: start markers, the payload's length as a
/// little-endian 16-bit field, the payload, end markers.
pub open spec fn framed(payload: Seq<u8>) -> Seq<u8> {
    seq![PACKET_START1, PACKET_START2] + le16(payload.len() as int) + payload + seq![
        PACKET_END1,
        PACKET_END2,
    ]
}

/// Appends `v`'s two low bytes, least significant first.
fn push_le16(buf: &mut Vec<u8>, v: u16)
    ensures
        final(buf)@ == old(buf)@ + le16(v as int),
{
    buf.push((v % 0x100) as u8);
    buf.push((v / 0x100) as u8);
    assert(buf@ =~= old(buf)@ + le16(v as int));
}

/// Wraps `payload` in a packet.
pub fn frame(payload: &[u8]) -> (out: Vec<u8>)
    requires
        payload@.len() + 6 <= isize::MAX,
    ensures
        out@ == framed(payload@),
{
    let len: u16 = (payload.len() % 0x10000) as u16;
    let mut out: Vec<u8> = Vec::with_capacity(payload.len() + 6);
    out.push(PACKET_START1);
    out.push(PACKET_START2);
    push_le16(&mut out, len);
    out.extend_from_slice(payload);
    out.push(PACKET_END1);
    out.push(PACKET_END2);
    assert(out@ =~= framed(payload@));
    out
}

/// The length field of a packet: bytes 2 and 3 read as an unsigned
/// little-endian 16-bit number.
pub open spec fn length_field(data: Seq<u8>) -> int {
    length_field_at(data, 2)
}

/// The unsigned little-endian 16-bit number in bytes `at` and `at + 1`.
pub open spec fn length_field_at(data: Seq<u8>, at: int) -> int {
    data[at] as int + 0x100 * data[at + 1] as int
}

/// The payload of the packet at the start of `data`, if one is there: the
/// start markers, the length field, that many payload bytes and the end
/// markers. Bytes after the end markers are ignored.
pub open spec fn deframed(data: Seq<u8>) -> Option<Seq<u8>> {
    if data.len() < 6 || data[0] != PACKET_START1 || data[1] != PACKET_START2 {
        None
    } else {
        let n = length_field(data);
        if data.len() < n + 6 {
            None
        } else if data[4 + n] != PACKET_END1 || data[5 + n] != PACKET_END2 {
            None
        } else {
            Some(data.subrange(4, 4 + n))
        }
    }
}

/// Takes the payload out of the packet at the start of `data`.
pub fn deframe(data: &[u8]) -> (res: Option<Vec<u8>>)
    ensures
        res matches Some(v) ==> deframed(data@) == Some(v@),
        res is None ==> deframed(data@) is None,
{
    if data.len() < 6 {
        return None;
    }
    if data[0] != PACKET_START1 || data[1] != PACKET_START2 {
        return None;
    }
    let len: usize = data[2] as usize + 0x100 * (data[3] as usize);
    let end: usize = 4 + len;
    if data.len() < end + 2 {
        return None;
    }
    if data[end] != PACKET_END1 || data[end + 1] != PACKET_END2 {
        return None;
    }
    let body: &[u8] = vstd::slice::slice_subrange(data, 4, end);
    Some(vstd::slice::slice_to_vec(body))
}

/// Framing a payload that the 16-bit length field can describe and taking the
/// packet apart again gives the payload back.
pub proof fn lemma_deframe_frame(payload: Seq<u8>)
    requires
        payload.len() <= 0xFFFF,
    ensures
        deframed(framed(payload)) == Some(payload),
{
    let d = framed(payload);
    let n = payload.len() as int;
    assert(d.len() == n + 6);
    assert(length_field(d) == n);
    assert(d.subrange(4, 4 + n) =~= payload);
}

/// A packet that deframes to `payload` begins with exactly `framed(payload)`:
/// framing the payload again rebuilds the bytes that were read, and the whole
/// input when it held nothing after the packet.
pub proof fn lemma_frame_deframe(data: Seq<u8>, payload: Seq<u8>)
    requires
        deframed(data) == Some(payload),
    ensures
        payload.len() + 6 <= data.len(),
        data.subrange(0, payload.len() + 6int) == framed(payload),
        data.len() == payload.len() + 6 ==> framed(payload) == data,
{
    let n = length_field(data);
    assert(payload.len() == n);
    assert(le16(n) =~= seq![data[2], data[3]]);
    assert(data.subrange(0, n + 6) =~= framed(payload));
    if data.len() == n + 6 {
        assert(data.subrange(0, n + 6) =~= data);
    }
}

/// Bytes after a complete packet never change what is taken out: the first
/// packet is returned.
pub proof fn lemma_deframe_ignores_trailing(data: Seq<u8>, payload: Seq<u8>, rest: Seq<u8>)
    requires
        deframed(data) == Some(payload),
    ensures
        deframed(data + rest) == Some(payload),
{
    let d = data + rest;
    let n = length_field(data);
    assert(length_field(d) == n);
    assert(d.subrange(4, 4 + n) =~= data.subrange(4, 4 + n));
}

/// A string as the protocol sends it: its byte length as a little-endian
/// 16-bit field, then its bytes.
pub open spec fn string2(bytes: Seq<u8>) -> Seq<u8> {
    le16(bytes.len() as int) + bytes
}

/// The UTF-8 bytes of a string.
pub open spec fn utf8(chars: Seq<char>) -> Seq<u8> {
    vstd::utf8::encode_utf8(chars)
}

/// Appends `str` in the protocol's string encoding.
pub fn write_string2(buf: &mut Vec<u8>, str: &str)
    ensures
        final(buf)@ == old(buf)@ + string2(utf8(str@)),
{
    let bytes: &[u8] = str.as_bytes();
    let len: u16 = (bytes.len() % 0x10000) as u16;
    push_le16(buf, len);
    buf.extend_from_slice(bytes);
    assert(buf@ =~= old(buf)@ + string2(utf8(str@)));
}

/// Appends the two bytes that `v.to_le_bytes()` gives.
fn push_i16_le(buf: &mut Vec<u8>, v: i16)
    ensures
        final(buf)@ == old(buf)@ + le16(v as int),
{
    let bits: u16 = if v < 0 {
        (v as i32 + 0x10000) as u16
    } else {
        v as u16
    };
    assert(bits as int % 0x10000 == v as int % 0x10000);
    push_le16(buf, bits);
}

/// The population a server is listed with: its user count, or -1 when the
/// count is above the server's limit.
pub open spec fn reported_count(server: ServerState) -> i16 {
    if server.user_count <= server.user_limit {
        server.user_count
    } else {
        -1i16
    }
}

/// One server's record in the server list: address, name, population.
pub open spec fn server_entry(server: ServerState) -> Seq<u8> {
    string2(utf8(server.ip@)) + string2(utf8(server.name@)) + le16(reported_count(server) as int)
}

/// The records of `servers`, in order.
pub open spec fn server_entries(servers: Seq<ServerState>) -> Seq<u8>
    decreases servers.len(),
{
    if servers.len() == 0 {
        seq![]
    } else {
        server_entries(servers.drop_last()) + server_entry(servers.last())
    }
}

/// The reply to a version request.
pub open spec fn version_reply(last_version: i16) -> Seq<u8> {
    seq![LS_VERSION_REQ] + le16(last_version as int)
}

/// The reply to a server-list request: the opcode, the number of servers
/// modulo 256, then each server's record.
pub open spec fn server_list_reply(servers: Seq<ServerState>) -> Seq<u8> {
    seq![LS_SERVER_LIST, (servers.len() % 0x100) as u8] + server_entries(servers)
}

/// The reply to a news request: the opcode, the title, the message.
pub open spec fn news_reply(title: Seq<char>, message: Seq<char>) -> Seq<u8> {
    seq![LS_NEWS] + string2(utf8(title)) + string2(utf8(message))
}

/// The client version in a download-info request: bytes 1 and 2 as a
/// little-endian `i16`; 0 when the request is too short to hold them.
pub open spec fn client_version(payload: Seq<u8>) -> int {
    if payload.len() < 3 {
        0
    } else {
        let raw = length_field_at(payload, 1);
        if raw >= 0x8000 {
            raw - 0x10000
        } else {
            raw
        }
    }
}

/// The file names, each in the protocol's string encoding, of the patches
/// newer than `version`, in the order given.
pub open spec fn patch_entries(patches: Seq<PatchFile>, version: int) -> Seq<u8>
    decreases patches.len(),
{
    if patches.len() == 0 {
        seq![]
    } else {
        let last = patches.last();
        patch_entries(patches.drop_last(), version) + if last.version > version {
            string2(utf8(last.file_name@))
        } else {
            Seq::<u8>::empty()
        }
    }
}

/// How many of `patches` are newer than `version`.
pub open spec fn patch_count(patches: Seq<PatchFile>, version: int) -> nat
    decreases patches.len(),
{
    if patches.len() == 0 {
        0
    } else {
        patch_count(patches.drop_last(), version) + if patches.last().version > version {
            1nat
        } else {
            0nat
        }
    }
}

/// The reply to a download-info request from a client at `version`: the
/// opcode, the patch server's address and path, the number of patches newer
/// than the client (modulo 2^16) and their file names.
pub open spec fn download_info_reply(
    download: DownloadConfig,
    patches: Seq<PatchFile>,
    version: int,
) -> Seq<u8> {
    seq![LS_DOWNLOADINFO_REQ] + string2(utf8(download.ftp_url@)) + string2(
        utf8(download.ftp_path@),
    ) + le16(patch_count(patches, version) as int) + patch_entries(patches, version)
}

/// The reply to a login request: the opcode and the result code. Without a
/// decision (the request could not be read or checked) the result is
/// `AuthResult::Error`.
pub open spec fn login_reply(login: Option<AuthResult>) -> Seq<u8> {
    let result = match login {
        Some(r) => r,
        None => AuthResult::Error,
    };
    seq![LS_LOGIN_REQ, auth_code(result)]
}

/// The reply to `payload`, chosen by its first byte; none for an empty
/// payload or an opcode that the server does not handle. `login` is the
/// decision on the login request in `payload`, where there is one.
pub open spec fn reply_to(
    payload: Seq<u8>,
    last_version: i16,
    servers: Seq<ServerState>,
    news_title: Seq<char>,
    news_message: Seq<char>,
    download: DownloadConfig,
    patches: Seq<PatchFile>,
    login: Option<AuthResult>,
) -> Option<Seq<u8>> {
    if payload.len() == 0 {
        None
    } else if payload[0] == LS_VERSION_REQ {
        Some(version_reply(last_version))
    } else if payload[0] == LS_DOWNLOADINFO_REQ {
        Some(download_info_reply(download, patches, client_version(payload)))
    } else if payload[0] == LS_LOGIN_REQ {
        Some(login_reply(login))
    } else if payload[0] == LS_SERVER_LIST {
        Some(server_list_reply(servers))
    } else if payload[0] == LS_NEWS {
        Some(news_reply(news_title, news_message))
    } else {
        None
    }
}

/// Apart from a download-info request, which also reads the client version
/// in bytes 1 and 2, the reply depends on the payload's first byte only.
pub proof fn lemma_reply_depends_on_opcode_only(
    payload1: Seq<u8>,
    payload2: Seq<u8>,
    last_version: i16,
    servers: Seq<ServerState>,
    news_title: Seq<char>,
    news_message: Seq<char>,
    download: DownloadConfig,
    patches: Seq<PatchFile>,
    login: Option<AuthResult>,
)
    requires
        payload1.len() > 0,
        payload2.len() > 0,
        payload1[0] == payload2[0],
        payload1[0] != LS_DOWNLOADINFO_REQ || client_version(payload1) == client_version(payload2),
    ensures
        reply_to(
            payload1,
            last_version,
            servers,
            news_title,
            news_message,
            download,
            patches,
            login,
        ) == reply_to(
            payload2,
            last_version,
            servers,
            news_title,
            news_message,
            download,
            patches,
            login,
        ),
{
}

/// The reply to a server-list request.
fn server_list(servers: &[ServerState]) -> (reply: Vec<u8>)
    ensures
        reply@ == server_list_reply(servers@),
{
    let mut reply: Vec<u8> = Vec::new();
    reply.push(LS_SERVER_LIST);
    reply.push((servers.len() % 0x100) as u8);
    let mut i: usize = 0;
    while i < servers.len()
        invariant
            i <= servers@.len(),
            reply@ == seq![LS_SERVER_LIST, (servers@.len() % 0x100) as u8] + server_entries(
                servers@.take(i as int),
            ),
        decreases servers@.len() - i,
    {
        let server: &ServerState = &servers[i];
        let ghost before = reply@;
        write_string2(&mut reply, server.ip.as_str());
        write_string2(&mut reply, server.name.as_str());
        let count: i16 = if server.user_count <= server.user_limit {
            server.user_count
        } else {
            -1
        };
        push_i16_le(&mut reply, count);
        assert(servers@.take(i + 1).drop_last() =~= servers@.take(i as int));
        assert(reply@ =~= before + server_entry(servers@[i as int]));
        i = i + 1;
    }
    assert(servers@.take(servers@.len() as int) =~= servers@);
    reply
}

/// The reply to a download-info request.
fn download_info(payload: &[u8], download: &DownloadConfig, patches: &[PatchFile]) -> (reply: Vec<
    u8,
>)
    ensures
        reply@ == download_info_reply(*download, patches@, client_version(payload@)),
{
    let version: i32 = if payload.len() < 3 {
        0
    } else {
        let raw: i32 = payload[1] as i32 + 0x100 * (payload[2] as i32);
        if raw >= 0x8000 {
            raw - 0x10000
        } else {
            raw
        }
    };
    let mut names: Vec<u8> = Vec::new();
    let mut count: usize = 0;
    let mut i: usize = 0;
    while i < patches.len()
        invariant
            i <= patches@.len(),
            version == client_version(payload@),
            count == patch_count(patches@.take(i as int), version as int),
            count <= i,
            names@ == patch_entries(patches@.take(i as int), version as int),
        decreases patches@.len() - i,
    {
        let patch: &PatchFile = &patches[i];
        assert(patches@.take(i + 1).drop_last() =~= patches@.take(i as int));
        if patch.version as i32 > version {
            write_string2(&mut names, patch.file_name.as_str());
            count = count + 1;
        } else {
            assert(names@ =~= names@ + Seq::<u8>::empty());
        }
        i = i + 1;
    }
    assert(patches@.take(patches@.len() as int) =~= patches@);
    let mut reply: Vec<u8> = Vec::new();
    reply.push(LS_DOWNLOADINFO_REQ);
    write_string2(&mut reply, download.ftp_url.as_str());
    write_string2(&mut reply, download.ftp_path.as_str());
    push_le16(&mut reply, (count % 0x10000) as u16);
    reply.extend_from_slice(names.as_slice());
    assert(reply@ =~= download_info_reply(*download, patches@, client_version(payload@)));
    reply
}

/// Answers the request in `payload`. `login` is the decision on the login
/// request in `payload` (see `crate::login`), where the caller made one.
pub fn handle(
    payload: &[u8],
    last_version: i16,
    servers: &[ServerState],
    news_title: &str,
    news_message: &str,
    download: &DownloadConfig,
    patches: &[PatchFile],
    login: Option<AuthResult>,
) -> (res: Option<Vec<u8>>)
    ensures
        res matches Some(v) ==> reply_to(
            payload@,
            last_version,
            servers@,
            news_title@,
            news_message@,
            *download,
            patches@,
            login,
        ) == Some(v@),
        res is None ==> reply_to(
            payload@,
            last_version,
            servers@,
            news_title@,
            news_message@,
            *download,
            patches@,
            login,
        ) is None,
{
    if payload.len() == 0 {
        return None;
    }
    let opcode: u8 = payload[0];
    if opcode == LS_VERSION_REQ {
        let mut reply: Vec<u8> = Vec::new();
        reply.push(LS_VERSION_REQ);
        push_i16_le(&mut reply, last_version);
        assert(reply@ =~= version_reply(last_version));
        Some(reply)
    } else if opcode == LS_DOWNLOADINFO_REQ {
        Some(download_info(payload, download, patches))
    } else if opcode == LS_LOGIN_REQ {
        let result: AuthResult = match login {
            Some(r) => r,
            None => AuthResult::Error,
        };
        let mut reply: Vec<u8> = Vec::new();
        reply.push(LS_LOGIN_REQ);
        reply.push(result.code());
        assert(reply@ =~= login_reply(login));
        Some(reply)
    } else if opcode == LS_SERVER_LIST {
        Some(server_list(servers))
    } else if opcode == LS_NEWS {
        let mut reply: Vec<u8> = Vec::new();
        reply.push(LS_NEWS);
        write_string2(&mut reply, news_title);
        write_string2(&mut reply, news_message);
        assert(reply@ =~= news_reply(news_title@, news_message@));
        Some(reply)
    } else {
        None
    }
}

} // verus!
