//! What the wire format means, stated byte by byte: each law reads the bytes
//! that a spec function of `protocol` or `login` produces and says what they
//! hold in terms of the inputs alone.
use vstd::prelude::*;

use crate::config::{AccountRecord, DownloadConfig, PatchFile, ServerState};
use crate::login::{auth_code, auth_outcome, parsed_login, AuthResult, BANNED_AUTHORITY};
use crate::protocol::{
    client_version, deframed, framed, le16, news_reply, patch_count, patch_entries, reply_to,
    server_entries, server_entry, string2, version_reply,
};

verus! {

/// A 16-bit field holds its value modulo 2^16: its two bytes, least
/// significant first, add up to that value.
pub proof fn lemma_le16_reads_back(v: int)
    ensures
        le16(v).len() == 2,
        le16(v)[0] as int + 0x100 * le16(v)[1] as int == v % 0x10000,
{
}

/// A protocol string is its UTF-8 byte count (modulo 2^16) in two
/// little-endian bytes, then the bytes themselves.
pub proof fn lemma_string2_layout(bytes: Seq<u8>)
    ensures
        string2(bytes).len() == bytes.len() + 2int,
        string2(bytes)[0] as int + 0x100 * string2(bytes)[1] as int == bytes.len() % 0x10000,
        string2(bytes).subrange(2, bytes.len() + 2int) == bytes,
{
    lemma_le16_reads_back(bytes.len() as int);
    assert(string2(bytes).subrange(2, bytes.len() + 2int) =~= bytes);
}

/// A packet is `AA 55`, the payload length modulo 2^16 in two little-endian
/// bytes, the payload itself in order, and `55 AA`.
pub proof fn lemma_frame_layout(payload: Seq<u8>)
    ensures
        framed(payload).len() == payload.len() + 6int,
        framed(payload)[0] == 0xAA,
        framed(payload)[1] == 0x55,
        framed(payload)[2] as int + 0x100 * framed(payload)[3] as int == payload.len() % 0x10000,
        framed(payload).subrange(4, payload.len() + 4int) == payload,
        framed(payload)[payload.len() + 4int] == 0x55,
        framed(payload)[payload.len() + 5int] == 0xAA,
{
    lemma_le16_reads_back(payload.len() as int);
    assert(framed(payload).subrange(4, payload.len() + 4int) =~= payload);
}

/// What comes out of a packet is the bytes after the length field, as many
/// as it says, in order, and only when the markers around them are right.
pub proof fn lemma_deframe_takes_the_bytes_in_order(data: Seq<u8>, payload: Seq<u8>)
    requires
        deframed(data) == Some(payload),
    ensures
        data.len() >= payload.len() + 6int,
        data[0] == 0xAA,
        data[1] == 0x55,
        payload.len() == data[2] as int + 0x100 * data[3] as int,
        payload == data.subrange(4, payload.len() + 4int),
        data[payload.len() + 4int] == 0x55,
        data[payload.len() + 5int] == 0xAA,
{
}

/// Every well-formed packet at the start of `data` is taken apart: the
/// length field is read as an unsigned 16-bit number, up to 0xFFFF.
pub proof fn lemma_deframe_accepts_every_packet(data: Seq<u8>)
    requires
        data.len() >= 6,
        data[0] == 0xAA,
        data[1] == 0x55,
        data.len() >= data[2] as int + 0x100 * data[3] as int + 6,
        data[data[2] as int + 0x100 * data[3] as int + 4] == 0x55,
        data[data[2] as int + 0x100 * data[3] as int + 5] == 0xAA,
    ensures
        deframed(data) == Some(data.subrange(4, data[2] as int + 0x100 * data[3] as int + 4)),
{
}

/// The reply to a version request is three bytes: the opcode, then the
/// configured version as a little-endian `i16`.
pub proof fn lemma_version_reply_layout(last_version: i16)
    ensures
        version_reply(last_version).len() == 3,
        version_reply(last_version)[0] == 0x01,
        version_reply(last_version)[1] as int + 0x100 * version_reply(last_version)[2] as int
            == last_version as int % 0x10000,
        ({
            let raw = version_reply(last_version)[1] as int + 0x100 * version_reply(
                last_version,
            )[2] as int;
            (if raw >= 0x8000 {
                raw - 0x10000
            } else {
                raw
            }) == last_version as int
        }),
{
    lemma_le16_reads_back(last_version as int);
}

/// A server's record: its address and its name as protocol strings of their
/// UTF-8 bytes, then its population as a little-endian `i16`: the user
/// count when it is within the limit, -1 otherwise.
pub proof fn lemma_server_entry_layout(server: ServerState)
    ensures
        ({
            let e = server_entry(server);
            let ip = vstd::utf8::encode_utf8(server.ip@);
            let name = vstd::utf8::encode_utf8(server.name@);
            let population: int = if server.user_count <= server.user_limit {
                server.user_count as int
            } else {
                -1
            };
            &&& e.len() == ip.len() + name.len() + 6
            &&& e[0] as int + 0x100 * e[1] as int == ip.len() % 0x10000
            &&& e.subrange(2, ip.len() + 2int) == ip
            &&& e[ip.len() + 2int] as int + 0x100 * e[ip.len() + 3int] as int == name.len() % 0x10000
            &&& e.subrange(ip.len() + 4int, ip.len() + name.len() + 4int) == name
            &&& e[ip.len() + name.len() + 4int] as int + 0x100 * e[ip.len() + name.len() + 5int] as int
                == population % 0x10000
        }),
{
    let e = server_entry(server);
    let ip = vstd::utf8::encode_utf8(server.ip@);
    let name = vstd::utf8::encode_utf8(server.name@);
    lemma_string2_layout(ip);
    lemma_string2_layout(name);
    let count = crate::protocol::reported_count(server);
    lemma_le16_reads_back(count as int);
    let a = string2(ip);
    let b = string2(name);
    let c = le16(count as int);
    assert(e == a + b + c);
    assert(e.subrange(2, ip.len() + 2int) =~= a.subrange(2, ip.len() + 2int));
    assert(e.subrange(ip.len() + 4int, ip.len() + name.len() + 4int) =~= b.subrange(
        2,
        name.len() + 2int,
    ));
    assert(e[ip.len() + 2int] == b[0]);
    assert(e[ip.len() + 3int] == b[1]);
    assert(e[ip.len() + name.len() + 4int] == c[0]);
    assert(e[ip.len() + name.len() + 5int] == c[1]);
}

/// The server list holds the records of the servers in their order: adding a
/// server appends its record, and no server gives no bytes.
pub proof fn lemma_server_entries_in_order(servers: Seq<ServerState>, server: ServerState)
    ensures
        server_entries(Seq::<ServerState>::empty()) == Seq::<u8>::empty(),
        server_entries(servers.push(server)) == server_entries(servers) + server_entry(server),
{
    assert(servers.push(server).drop_last() =~= servers);
}

/// The reply to a news request: the opcode, then the title and the message,
/// each as its UTF-8 byte count in two little-endian bytes followed by those
/// bytes.
pub proof fn lemma_news_reply_layout(title: Seq<char>, message: Seq<char>)
    ensures
        ({
            let r = news_reply(title, message);
            let t = vstd::utf8::encode_utf8(title);
            let m = vstd::utf8::encode_utf8(message);
            &&& r.len() == t.len() + m.len() + 5
            &&& r[0] == 0xF6
            &&& r[1] as int + 0x100 * r[2] as int == t.len() % 0x10000
            &&& r.subrange(3, t.len() + 3int) == t
            &&& r[t.len() + 3int] as int + 0x100 * r[t.len() + 4int] as int == m.len() % 0x10000
            &&& r.subrange(t.len() + 5int, t.len() + m.len() + 5int) == m
        }),
{
    let r = news_reply(title, message);
    let t = vstd::utf8::encode_utf8(title);
    let m = vstd::utf8::encode_utf8(message);
    lemma_string2_layout(t);
    lemma_string2_layout(m);
    let a = string2(t);
    let b = string2(m);
    assert(r == seq![0xF6u8] + a + b);
    assert(r.subrange(3, t.len() + 3int) =~= a.subrange(2, t.len() + 2int));
    assert(r.subrange(t.len() + 5int, t.len() + m.len() + 5int) =~= b.subrange(2, m.len() + 2int));
    assert(r[1] == a[0]);
    assert(r[2] == a[1]);
    assert(r[t.len() + 3int] == b[0]);
    assert(r[t.len() + 4int] == b[1]);
}

/// The reply to a server-list request: the opcode, the number of servers
/// modulo 256, then the servers' records.
pub proof fn lemma_server_list_reply_layout(servers: Seq<ServerState>)
    ensures
        crate::protocol::server_list_reply(servers).len() == server_entries(servers).len() + 2int,
        crate::protocol::server_list_reply(servers)[0] == 0xF5,
        crate::protocol::server_list_reply(servers)[1] as int == servers.len() % 0x100,
        crate::protocol::server_list_reply(servers).subrange(
            2,
            server_entries(servers).len() + 2int,
        ) == server_entries(servers),
{
    let r = crate::protocol::server_list_reply(servers);
    assert(r.subrange(2, server_entries(servers).len() + 2int) =~= server_entries(servers));
}

/// The client version of a download-info request is bytes 1 and 2 read as a
/// little-endian `i16`, and 0 when the request is shorter.
pub proof fn lemma_client_version_reads_i16(payload: Seq<u8>)
    ensures
        payload.len() < 3 ==> client_version(payload) == 0,
        payload.len() >= 3 ==> {
            &&& -0x8000 <= client_version(payload) < 0x8000
            &&& client_version(payload) % 0x10000 == payload[1] as int + 0x100 * payload[2] as int
        },
{
}

/// The patch list holds, in order, the file names of exactly the patches
/// newer than the client, and counts them.
pub proof fn lemma_patches_in_order(patches: Seq<PatchFile>, patch: PatchFile, version: int)
    ensures
        patch_entries(Seq::<PatchFile>::empty(), version) == Seq::<u8>::empty(),
        patch_count(Seq::<PatchFile>::empty(), version) == 0,
        patch.version > version ==> patch_entries(patches.push(patch), version) == patch_entries(
            patches,
            version,
        ) + string2(vstd::utf8::encode_utf8(patch.file_name@)),
        patch.version > version ==> patch_count(patches.push(patch), version) == patch_count(
            patches,
            version,
        ) + 1,
        patch.version <= version ==> patch_entries(patches.push(patch), version)
            == patch_entries(patches, version),
        patch.version <= version ==> patch_count(patches.push(patch), version) == patch_count(
            patches,
            version,
        ),
{
    assert(patches.push(patch).drop_last() =~= patches);
    assert(patch_entries(patches, version) + Seq::<u8>::empty() =~= patch_entries(
        patches,
        version,
    ));
}

/// The reply to a download-info request: the opcode, the patch server's
/// address and path as protocol strings, the number of listed patches
/// modulo 2^16, then the list.
pub proof fn lemma_download_info_layout(
    download: DownloadConfig,
    patches: Seq<PatchFile>,
    version: int,
)
    ensures
        ({
            let r = crate::protocol::download_info_reply(download, patches, version);
            let url = vstd::utf8::encode_utf8(download.ftp_url@);
            let path = vstd::utf8::encode_utf8(download.ftp_path@);
            let n: int = url.len() as int + path.len() as int;
            &&& r.len() == n + 7 + patch_entries(patches, version).len()
            &&& r[0] == 0x02
            &&& r[1] as int + 0x100 * r[2] as int == url.len() % 0x10000
            &&& r.subrange(3, url.len() + 3int) == url
            &&& r[url.len() + 3int] as int + 0x100 * r[url.len() + 4int] as int == path.len() % 0x10000
            &&& r.subrange(url.len() + 5int, n + 5) == path
            &&& r[n + 5] as int + 0x100 * r[n + 6] as int == patch_count(patches, version)
                % 0x10000
            &&& r.subrange(n + 7, r.len() as int) == patch_entries(patches, version)
        }),
{
    let r = crate::protocol::download_info_reply(download, patches, version);
    let url = vstd::utf8::encode_utf8(download.ftp_url@);
    let path = vstd::utf8::encode_utf8(download.ftp_path@);
    let n: int = url.len() as int + path.len() as int;
    lemma_string2_layout(url);
    lemma_string2_layout(path);
    lemma_le16_reads_back(patch_count(patches, version) as int);
    let a = string2(url);
    let b = string2(path);
    let c = le16(patch_count(patches, version) as int);
    let d = patch_entries(patches, version);
    assert(r == seq![0x02u8] + a + b + c + d);
    assert(r.subrange(3, url.len() + 3int) =~= a.subrange(2, url.len() + 2int));
    assert(r.subrange(url.len() + 5int, n + 5) =~= b.subrange(2, path.len() + 2int));
    assert(r.subrange(n + 7, r.len() as int) =~= d);
    assert(r[1] == a[0]);
    assert(r[2] == a[1]);
    assert(r[url.len() + 3int] == b[0]);
    assert(r[url.len() + 4int] == b[1]);
    assert(r[n + 5] == c[0]);
    assert(r[n + 6] == c[1]);
}

/// Login result codes: success is 1, an undecided login is 0xFF, and no two
/// results share a code.
pub proof fn lemma_auth_codes_distinct(a: AuthResult, b: AuthResult)
    ensures
        auth_code(AuthResult::Success) == 1,
        auth_code(AuthResult::Error) == 0xFF,
        a != b ==> auth_code(a) != auth_code(b),
{
}

/// The reply to a login request is the opcode and the code of the decision;
/// without a decision, the code of `AuthResult::Error`.
pub proof fn lemma_login_reply_layout(login: Option<AuthResult>)
    ensures
        crate::protocol::login_reply(login).len() == 2,
        crate::protocol::login_reply(login)[0] == 0xF3,
        login matches Some(r) ==> crate::protocol::login_reply(login)[1] == auth_code(r),
        login is None ==> crate::protocol::login_reply(login)[1] == auth_code(AuthResult::Error),
{
}

/// Each opcode gets its own reply; an empty payload or any other opcode gets
/// none.
pub proof fn lemma_reply_to_dispatch(
    payload: Seq<u8>,
    last_version: i16,
    servers: Seq<ServerState>,
    news_title: Seq<char>,
    news_message: Seq<char>,
    download: DownloadConfig,
    patches: Seq<PatchFile>,
    login: Option<AuthResult>,
)
    ensures
        ({
            let r = reply_to(
                payload,
                last_version,
                servers,
                news_title,
                news_message,
                download,
                patches,
                login,
            );
            &&& payload.len() == 0 ==> r is None
            &&& payload.len() > 0 && payload[0] == 0x01 ==> r == Some(version_reply(last_version))
            &&& payload.len() > 0 && payload[0] == 0x02 ==> r == Some(
                crate::protocol::download_info_reply(download, patches, client_version(payload)),
            )
            &&& payload.len() > 0 && payload[0] == 0xF3 ==> r == Some(
                crate::protocol::login_reply(login),
            )
            &&& payload.len() > 0 && payload[0] == 0xF5 ==> r == Some(
                crate::protocol::server_list_reply(servers),
            )
            &&& payload.len() > 0 && payload[0] == 0xF6 ==> r == Some(
                news_reply(news_title, news_message),
            )
            &&& payload.len() > 0 && payload[0] != 0x01 && payload[0] != 0x02 && payload[0] != 0xF3
                && payload[0] != 0xF5 && payload[0] != 0xF6 ==> r is None
        }),
{
}

/// A login payload is the opcode, then the account and the password as
/// protocol strings; reading one gives back what was written, whatever
/// follows.
pub proof fn lemma_login_request_round_trip(account: Seq<u8>, password: Seq<u8>, rest: Seq<u8>)
    requires
        account.len() <= 0xFFFF,
        password.len() <= 0xFFFF,
    ensures
        parsed_login(seq![0xF3u8] + string2(account) + string2(password) + rest) == Some(
            (account, password),
        ),
{
    let p = seq![0xF3u8] + string2(account) + string2(password) + rest;
    let a = string2(account);
    let w = string2(password);
    lemma_string2_layout(account);
    lemma_string2_layout(password);
    let al = account.len() as int;
    assert(p[1] == a[0]);
    assert(p[2] == a[1]);
    assert(p[3 + al] == w[0]);
    assert(p[4 + al] == w[1]);
    assert(p.subrange(3, 3 + al) =~= account);
    assert(p.subrange(5 + al, 5 + al + password.len()) =~= password);
}

/// What is read out of a login payload is exactly the two protocol strings
/// after the opcode.
pub proof fn lemma_login_request_layout(payload: Seq<u8>, account: Seq<u8>, password: Seq<u8>)
    requires
        parsed_login(payload) == Some((account, password)),
    ensures
        payload.len() >= account.len() + password.len() + 5int,
        payload[0] == 0xF3,
        payload[1] as int + 0x100 * payload[2] as int == account.len(),
        payload.subrange(3, account.len() + 3int) == account,
        payload[account.len() + 3int] as int + 0x100 * payload[account.len() + 4int] as int
            == password.len(),
        payload.subrange(account.len() + 5int, account.len() + password.len() + 5int) == password,
{
}

/// A login succeeds exactly when the account exists, the password is its
/// stored password's UTF-8 bytes, the account is not banned and not already
/// in the game; each refusal names the first check that failed.
pub proof fn lemma_auth_outcome(password: Seq<u8>, account: Option<AccountRecord>, in_game: bool)
    ensures
        ({
            let r = auth_outcome(password, account, in_game);
            &&& (r == AuthResult::NotFound) <==> account is None
            &&& (r == AuthResult::InvalidPassword) <==> (account matches Some(a)
                && vstd::utf8::encode_utf8(a.password@) != password)
            &&& (r == AuthResult::Banned) <==> (account matches Some(a)
                && vstd::utf8::encode_utf8(a.password@) == password && a.authority
                == BANNED_AUTHORITY)
            &&& (r == AuthResult::InGame) <==> (account matches Some(a)
                && vstd::utf8::encode_utf8(a.password@) == password && a.authority
                != BANNED_AUTHORITY && in_game)
            &&& (r == AuthResult::Success) <==> (account matches Some(a)
                && vstd::utf8::encode_utf8(a.password@) == password && a.authority
                != BANNED_AUTHORITY && !in_game)
            &&& r != AuthResult::Error
        }),
{
}

} // verus!
