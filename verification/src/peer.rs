//! The decisions of peer-to-peer file transfer: which peers to ask, how a
//! request is keyed, which ICE servers to use, and what a data-channel message
//! means. The WebRTC connections run around these decisions.
use vstd::prelude::*;

use crate::config::{copy_strings, Config};
use crate::signaling::FileRequestMessage;
use crate::text::{chars_of, push_str, str_eq, string_from_chars};

verus! {

/// The size of the chunks in which files are read, hashed and sent.
pub const CHUNK_SIZE: usize = 65536;

/// The key of a pending file request: `<device>:<path>:<sha256>`.
pub fn request_key(target_device_id: &str, path: &str, sha256: &str) -> (r: String)
    ensures
        r@ == target_device_id@ + ":"@ + path@ + ":"@ + sha256@,
{
    let mut v = chars_of(target_device_id);
    push_str(&mut v, ":");
    push_str(&mut v, path);
    push_str(&mut v, ":");
    push_str(&mut v, sha256);
    string_from_chars(v.as_slice())
}

/// The devices other than `self_id`, in the given order.
pub open spec fn others(devices: Seq<String>, self_id: Seq<char>) -> Seq<String>
    decreases devices.len(),
{
    if devices.len() == 0 {
        Seq::empty()
    } else {
        let rest = others(devices.drop_last(), self_id);
        if devices.last()@ != self_id {
            rest.push(devices.last())
        } else {
            rest
        }
    }
}

/// The devices to ask for a file: every listed device but this one, in order.
pub fn peer_candidates(device_ids: &Vec<String>, self_id: &str) -> (r: Vec<String>)
    ensures
        r@ == others(device_ids@, self_id@),
{
    let mut out: Vec<String> = Vec::new();
    let mut i: usize = 0;
    assert(device_ids@.take(0) =~= Seq::<String>::empty());
    while i < device_ids.len()
        invariant
            i <= device_ids@.len(),
            out@ == others(device_ids@.take(i as int), self_id@),
        decreases device_ids@.len() - i,
    {
        assert(device_ids@.take(i + 1).drop_last() =~= device_ids@.take(i as int));
        if !str_eq(device_ids[i].as_str(), self_id) {
            out.push(device_ids[i].clone());
        }
        i = i + 1;
    }
    assert(device_ids@.take(device_ids@.len() as int) =~= device_ids@);
    out
}

/// An ICE server for a peer connection.
#[derive(Debug)]
pub struct IceServer {
    pub urls: Vec<String>,
    pub username: String,
    pub credential: String,
}

/// A configured optional text, or the empty text.
fn or_empty(s: &Option<String>) -> (r: String)
    ensures
        match s {
            Some(v) => r == *v,
            None => r@ == Seq::<char>::empty(),
        },
{
    match s {
        Some(v) => v.clone(),
        None => String::new(),
    }
}

/// The ICE servers of a peer connection: one for all the STUN servers when
/// there are any, then one per TURN server with its credentials (empty when
/// missing).
pub fn ice_servers(config: &Config) -> (r: Vec<IceServer>)
    ensures
        ({
            let off: int = if config.stun_servers@.len() > 0 {
                1
            } else {
                0
            };
            &&& r@.len() == off + config.turn_servers@.len()
            &&& config.stun_servers@.len() > 0 ==> r@[0].urls@ == config.stun_servers@
                && r@[0].username@ == Seq::<char>::empty() && r@[0].credential@ == Seq::<
                char,
            >::empty()
            &&& forall|i: int|
                0 <= i < config.turn_servers@.len() ==> {
                    let t = #[trigger] config.turn_servers@[i];
                    let s = r@[off + i];
                    &&& s.urls@ == t.urls@
                    &&& (match t.username {
                        Some(u) => s.username == u,
                        None => s.username@ == Seq::<char>::empty(),
                    })
                    &&& (match t.credential {
                        Some(c) => s.credential == c,
                        None => s.credential@ == Seq::<char>::empty(),
                    })
                }
        }),
{
    let mut out: Vec<IceServer> = Vec::new();
    if config.stun_servers.len() > 0 {
        out.push(
            IceServer {
                urls: copy_strings(&config.stun_servers),
                username: String::new(),
                credential: String::new(),
            },
        );
    }
    let ghost off: int = if config.stun_servers@.len() > 0 {
        1
    } else {
        0
    };
    let ghost first = out@;
    let mut i: usize = 0;
    while i < config.turn_servers.len()
        invariant
            i <= config.turn_servers@.len(),
            out@.len() == off + i,
            off == (if config.stun_servers@.len() > 0 {
                1int
            } else {
                0int
            }),
            off > 0 ==> out@[0] == first[0],
            first.len() == off,
            config.stun_servers@.len() > 0 ==> first[0].urls@ == config.stun_servers@
                && first[0].username@ == Seq::<char>::empty() && first[0].credential@ == Seq::<
                char,
            >::empty(),
            forall|j: int|
                0 <= j < i ==> {
                    let t = #[trigger] config.turn_servers@[j];
                    let s = out@[off + j];
                    &&& s.urls@ == t.urls@
                    &&& (match t.username {
                        Some(u) => s.username == u,
                        None => s.username@ == Seq::<char>::empty(),
                    })
                    &&& (match t.credential {
                        Some(c) => s.credential == c,
                        None => s.credential@ == Seq::<char>::empty(),
                    })
                },
        decreases config.turn_servers@.len() - i,
    {
        let t = &config.turn_servers[i];
        out.push(
            IceServer {
                urls: copy_strings(&t.urls),
                username: or_empty(&t.username),
                credential: or_empty(&t.credential),
            },
        );
        i = i + 1;
    }
    out
}

/// The bytes of a file arriving on a data channel.
#[derive(Debug)]
pub struct TransferBuffer {
    pub data: Vec<u8>,
}

impl TransferBuffer {
    /// An empty buffer.
    pub fn new() -> (r: TransferBuffer)
        ensures
            r.data@ == Seq::<u8>::empty(),
    {
        TransferBuffer { data: Vec::new() }
    }

    /// Appends a binary chunk.
    pub fn append(&mut self, chunk: &[u8])
        ensures
            final(self).data@ == old(self).data@ + chunk@,
    {
        let ghost start = self.data@;
        let mut i: usize = 0;
        while i < chunk.len()
            invariant
                i <= chunk@.len(),
                self.data@ == start + chunk@.take(i as int),
            decreases chunk@.len() - i,
        {
            self.data.push(chunk[i]);
            assert(chunk@.take(i + 1) =~= chunk@.take(i as int).push(chunk@[i as int]));
            i = i + 1;
            assert(self.data@ =~= start + chunk@.take(i as int));
        }
        assert(chunk@.take(chunk@.len() as int) =~= chunk@);
    }
}

/// What a text message on a data channel asks.
#[derive(Debug)]
pub enum TextAction {
    /// Send the requested file at this path.
    Serve(String),
    /// The transfer is complete: hand the buffered bytes to the waiting request.
    Complete,
    /// Nothing to do.
    Ignore,
}

/// What a text message on a data channel asks, given its parse as a file
/// request: a request is served; `EOF` completes the transfer when this
/// channel carries a request of this device (its key is not empty).
pub open spec fn text_action_is(
    r: TextAction,
    text: Seq<char>,
    request: Option<FileRequestMessage>,
    request_key: Seq<char>,
) -> bool {
    match request {
        Some(req) => r matches TextAction::Serve(p) && p@ == req.path@,
        None => if text == "EOF"@ && request_key.len() > 0 {
            r is Complete
        } else {
            r is Ignore
        },
    }
}

/// What a text message on a data channel asks (see `text_action_is`).
pub fn text_message_action(text: &str, request: Option<FileRequestMessage>, request_key: &str) -> (r: TextAction)
    ensures
        text_action_is(r, text@, request, request_key@),
{
    match request {
        Some(req) => TextAction::Serve(req.path),
        None => {
            if str_eq(text, "EOF") && !request_key.is_empty() {
                TextAction::Complete
            } else {
                TextAction::Ignore
            }
        },
    }
}

} // verus!
