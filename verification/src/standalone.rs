//! The request handling of the minimal server binary, which answers version
//! requests only, with a fixed version.
use vstd::prelude::*;

pub use crate::protocol::{deframe, frame};

use crate::config::{DownloadConfig, PatchFile, ServerState};
use crate::login::AuthResult;
use crate::protocol::{reply_to, version_reply, LS_VERSION_REQ};

verus! {

/// The client version that the minimal server announces.
pub const LAST_VERSION: i16 = 1298;

/// Answers a version request with `LAST_VERSION`; every other payload gets
/// no reply.
pub fn handle(payload: &[u8]) -> (res: Option<Vec<u8>>)
    ensures
        res is Some <==> payload@.len() > 0 && payload@[0] == LS_VERSION_REQ,
        res matches Some(v) ==> v@ == version_reply(LAST_VERSION),
{
    if payload.len() == 0 {
        return None;
    }
    let opcode: u8 = payload[0];
    if opcode == LS_VERSION_REQ {
        let mut reply: Vec<u8> = Vec::new();
        reply.push(LS_VERSION_REQ);
        reply.push((LAST_VERSION % 0x100) as u8);
        reply.push((LAST_VERSION / 0x100) as u8);
        assert(reply@ =~= version_reply(LAST_VERSION));
        Some(reply)
    } else {
        None
    }
}

/// Whatever the minimal server answers, the full handler answers the same
/// when it is configured with `LAST_VERSION`, whatever its server list and
/// news, download and login settings.
pub proof fn lemma_standalone_agrees(
    payload: Seq<u8>,
    servers: Seq<ServerState>,
    news_title: Seq<char>,
    news_message: Seq<char>,
    download: DownloadConfig,
    patches: Seq<PatchFile>,
    login: Option<AuthResult>,
)
    requires
        payload.len() > 0,
        payload[0] == LS_VERSION_REQ,
    ensures
        reply_to(
            payload,
            LAST_VERSION,
            servers,
            news_title,
            news_message,
            download,
            patches,
            login,
        ) == Some(
            version_reply(LAST_VERSION),
        ),
{
}

} // verus!
