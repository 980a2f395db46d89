//! Backup request status.

use vstd::prelude::*;
use crate::text::{chars_of, decoded, owned, range_is, str_from_utf8, token_ranges, tokens, pieces};

verus! {

/// Where a backup is in its lifecycle.
#[derive(Debug, Clone, Copy, PartialEq, Eq)]
pub enum BackupState {
    /// The device accepted the request; completion is not confirmed yet.
    Pending,
    /// The device reported the backup finished cleanly.
    Complete,
    /// The device rejected the backup or the transport failed.
    Failed,
}

/// Snapshot of a backup request.
#[derive(Debug, Clone, PartialEq, Eq)]
pub struct BackupStatus {
    pub state: BackupState,
    pub destination: String,
}

/// The device accepted a request when its reply is UTF-8 and its first
/// word is `ok`; a reply like `nok: out of space` is a rejection.
pub open spec fn accepted(reply: Seq<u8>) -> bool {
    match decoded(reply) {
        Some(text) => tokens(text).len() > 0 && tokens(text)[0] == "ok"@,
        None => false,
    }
}

/// The status of a backup to `dest`, given the device's reply to the
/// `backup` request: pending if the device accepted it, failed otherwise.
pub fn backup_status(reply: &[u8], dest: &str) -> (r: BackupStatus)
    ensures
        r.state == (if accepted(reply@) {
            BackupState::Pending
        } else {
            BackupState::Failed
        }),
        r.destination@ == dest@,
{
    let ok = match str_from_utf8(reply) {
        Ok(text) => {
            let cs = chars_of(text);
            let ts = token_ranges(&cs, 0, cs.len());
            assert(cs@.subrange(0, cs.len() as int) =~= cs@);
            if ts.len() > 0 {
                let (a, b) = ts[0];
                assert(pieces(cs@, ts@)[0] == cs@.subrange(a as int, b as int));
                range_is(&cs, a, b, "ok")
            } else {
                false
            }
        },
        Err(_) => false,
    };
    BackupStatus {
        state: if ok {
            BackupState::Pending
        } else {
            BackupState::Failed
        },
        destination: owned(dest),
    }
}

} // verus!
