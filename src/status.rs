//! Online/offline status of the chain client and the bundler.
use vstd::prelude::*;
use crate::json::Json;

verus! {

#[derive(Clone, Copy, Debug, PartialEq, Eq, Structural)]
pub enum Status {
    Online,
    Offline,
}

/// Status of the batch producer, the RPC endpoint and the bundler.
#[derive(Clone, Copy, Debug, PartialEq, Eq, Structural)]
pub struct NetworkStatus {
    pub batch_producer: Status,
    pub rpc_endpoint: Status,
    pub bundler_endpoint: Status,
}

impl NetworkStatus {
    /// Everything offline, before the first poll.
    pub fn offline() -> (r: NetworkStatus)
        ensures
            r.batch_producer == Status::Offline,
            r.rpc_endpoint == Status::Offline,
            r.bundler_endpoint == Status::Offline,
    {
        NetworkStatus {
            batch_producer: Status::Offline,
            rpc_endpoint: Status::Offline,
            bundler_endpoint: Status::Offline,
        }
    }
}

/// Whether `s` holds `ok` somewhere.
pub open spec fn has_ok(s: Seq<char>) -> bool {
    exists|i: int| 0 <= i && i + 1 < s.len() && #[trigger] s[i] == 'o' && s[i + 1] == 'k'
}

/// A bundler is online when its health reply was received and holds `ok`.
pub fn bundler_status(body: Option<&str>) -> (r: Status)
    ensures
        (r == Status::Online) == (body is Some && has_ok(body.unwrap()@)),
{
    match body {
        None => Status::Offline,
        Some(b) => {
            let n = b.unicode_len();
            let mut i: usize = 0;
            while i < n
                invariant
                    i <= n,
                    n == b@.len(),
                    body == Some(b),
                    forall|k: int| 0 <= k < i && k + 1 < n ==> !(#[trigger] b@[k] == 'o' && b@[k + 1] == 'k'),
                decreases n - i,
            {
                if i + 1 < n && b.get_char(i) == 'o' && b.get_char(i + 1) == 'k' {
                    assert(b@[i as int] == 'o' && b@[i + 1] == 'k');
                    assert(has_ok(b@));
                    return Status::Online;
                }
                i += 1;
            }
            assert(!has_ok(b@)) by {
                if has_ok(b@) {
                    let k = choose|k: int| 0 <= k && k + 1 < b@.len() && #[trigger] b@[k] == 'o' && b@[k + 1] == 'k';
                    assert(k < i);
                }
            }
            Status::Offline
        },
    }
}

/// A sync-status reply means online when it carries `tip_height`.
pub fn sync_status(reply: &Json) -> (r: Status)
    ensures
        r == (if reply.spec_get("tip_height"@) is Some { Status::Online } else { Status::Offline }),
{
    match reply.get(&String::from_str("tip_height")) {
        Some(_) => Status::Online,
        None => Status::Offline,
    }
}

/// After a failed status query: whether to try again, given how many
/// retries were made and how many are allowed.
pub fn should_retry(retry_count: u64, max_retries: u64) -> (r: bool)
    ensures
        r == (retry_count < max_retries),
{
    retry_count < max_retries
}

} // verus!
