//! Requests and responses of the daemon's client socket, and their framing:
//! a 4-byte big-endian length, then the body.

use vstd::prelude::*;
use crate::text::push_char;

verus! {

#[derive(Clone, Debug)]
pub enum IpcRequest {
    ScratchpadToggle { name: String },
    ScratchpadAdd { name: String, direction: String },
    SingletonToggle { name: String },
    WindowOrderToggle,
    Reload,
    Ping,
    Shutdown,
}

#[derive(Clone, Debug)]
pub enum IpcResponse {
    Success,
    Error(String),
    Pong,
}

/// Big-endian value of four bytes.
pub open spec fn be_value(b: Seq<u8>) -> nat {
    ((b[0] as nat) * 16777216 + (b[1] as nat) * 65536 + (b[2] as nat) * 256 + b[3] as nat) as nat
}

/// A frame: the big-endian length of `body`, then `body`.
pub open spec fn frame(body: Seq<u8>) -> Seq<u8> {
    seq![
        ((body.len() / 16777216) % 256) as u8,
        ((body.len() / 65536) % 256) as u8,
        ((body.len() / 256) % 256) as u8,
        (body.len() % 256) as u8,
    ] + body
}

/// Frames `body` for the socket.
pub fn encode_frame(body: &Vec<u8>) -> (r: Vec<u8>)
    requires
        body@.len() <= u32::MAX,
    ensures
        r@ == frame(body@),
{
    let n = body.len() as u32;
    let mut r: Vec<u8> = Vec::new();
    r.push(((n / 16777216) % 256) as u8);
    r.push(((n / 65536) % 256) as u8);
    r.push(((n / 256) % 256) as u8);
    r.push((n % 256) as u8);
    let mut i: usize = 0;
    while i < body.len()
        invariant
            i <= body@.len(),
            n as nat == body@.len(),
            r@.len() == 4 + i,
            r@.subrange(0, 4) == frame(body@).subrange(0, 4),
            r@.subrange(4, 4 + i as int) == body@.subrange(0, i as int),
        decreases body.len() - i,
    {
        let ghost before = r@;
        r.push(body[i]);
        assert(r@.subrange(0, 4) =~= before.subrange(0, 4));
        assert(r@.subrange(4, 4 + i + 1) =~= before.subrange(4, 4 + i as int).push(body@[i as int]));
        assert(body@.subrange(0, i + 1) =~= body@.subrange(0, i as int).push(body@[i as int]));
        i += 1;
    }
    assert(r@ =~= r@.subrange(0, 4) + r@.subrange(4, r@.len() as int));
    assert(body@.subrange(0, body@.len() as int) =~= body@);
    assert(frame(body@) =~= frame(body@).subrange(0, 4) + body@);
    r
}

/// Body length that a frame header announces.
pub fn frame_length(header: &[u8; 4]) -> (r: u32)
    ensures
        r as nat == be_value(header@),
{
    (header[0] as u32) * 16777216 + (header[1] as u32) * 65536 + (header[2] as u32) * 256 + header[3] as u32
}

/// Reading a frame's header gives back the length of its body.
pub proof fn lemma_frame_length(body: Seq<u8>)
    requires
        body.len() <= u32::MAX,
    ensures
        be_value(frame(body).subrange(0, 4)) == body.len(),
{
    let n = body.len();
    let h = frame(body).subrange(0, 4);
    assert(h[0] == ((n / 16777216) % 256) as u8);
    assert(h[3] == (n % 256) as u8);
    assert(n == ((n / 16777216) % 256) * 16777216 + ((n / 65536) % 256) * 65536 + ((n / 256) % 256) * 256 + n % 256) by (nonlinear_arith)
        requires
            n <= 4294967295,
    ;
}

/// Where the daemon's socket is: in the runtime directory when there is one,
/// else under `/tmp`.
pub open spec fn socket_path_text(runtime_dir: Option<Seq<char>>) -> Seq<char> {
    match runtime_dir {
        Some(d) => d + seq!['/', 'p', 'i', 'r', 'i', '.', 's', 'o', 'c', 'k'],
        None => seq!['/', 't', 'm', 'p', '/', 'p', 'i', 'r', 'i', '.', 's', 'o', 'c', 'k'],
    }
}

fn push_sock_name(s: &mut String)
    ensures
        final(s)@ == old(s)@ + seq!['/', 'p', 'i', 'r', 'i', '.', 's', 'o', 'c', 'k'],
{
    push_char(s, '/');
    push_char(s, 'p');
    push_char(s, 'i');
    push_char(s, 'r');
    push_char(s, 'i');
    push_char(s, '.');
    push_char(s, 's');
    push_char(s, 'o');
    push_char(s, 'c');
    push_char(s, 'k');
    assert(final(s)@ =~= old(s)@ + seq!['/', 'p', 'i', 'r', 'i', '.', 's', 'o', 'c', 'k']);
}

/// Path of the daemon's socket, given the runtime directory.
pub fn socket_path_for(runtime_dir: Option<String>) -> (r: String)
    ensures
        r@ == socket_path_text(
            match runtime_dir {
                Some(d) => Some(d@),
                None => None,
            },
        ),
{
    match runtime_dir {
        Some(d) => {
            let mut s = d;
            push_sock_name(&mut s);
            s
        },
        None => {
            let mut s = String::new();
            push_char(&mut s, '/');
            push_char(&mut s, 't');
            push_char(&mut s, 'm');
            push_char(&mut s, 'p');
            push_sock_name(&mut s);
            assert(s@ =~= seq!['/', 't', 'm', 'p', '/', 'p', 'i', 'r', 'i', '.', 's', 'o', 'c', 'k']);
            s
        },
    }
}

/// Client of the daemon's socket.
pub struct IpcClient {
    pub socket_path: String,
}

impl IpcClient {
    /// A client of the socket at `socket_path`, else of the default socket
    /// `default_path`.
    pub fn new(socket_path: Option<String>, default_path: String) -> (r: IpcClient)
        ensures
            r.socket_path == match socket_path {
                Some(p) => p,
                None => default_path,
            },
    {
        match socket_path {
            Some(p) => IpcClient { socket_path: p },
            None => IpcClient { socket_path: default_path },
        }
    }
}

} // verus!
