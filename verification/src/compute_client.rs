//! The client of the compute service: its settings, what it remembers of
//! the service, and the framing of its messages.

use vstd::prelude::*;
use vstd::string::*;

verus! {

/// How the compute service scales an image.
#[derive(Debug, Clone, Copy, PartialEq, Eq, Structural)]
pub enum ResizeAlgorithm {
    /// Nearest neighbour.
    Nearest,
    /// Bilinear.
    Bilinear,
    /// Lanczos with three lobes.
    Lanczos3,
}

/// A kind of request to the compute service.
#[derive(Debug, Clone, Copy, PartialEq, Eq, Structural)]
pub enum RequestKind {
    /// Ask whether the service is there.
    Ping,
    /// Scale an image.
    ImageResize,
    /// Apply a gamma curve.
    ImageGamma,
    /// Correct chromatic aberration.
    ChromaticAberration,
    /// Run a median filter.
    MedianFilter,
    /// Reduce noise.
    Denoise,
}

/// The name under which the service knows a kind of request.
pub open spec fn request_op(kind: RequestKind) -> Seq<char> {
    match kind {
        RequestKind::Ping => "health"@,
        RequestKind::ImageResize => "image_resize"@,
        RequestKind::ImageGamma => "image_gamma"@,
        RequestKind::ChromaticAberration => "chromatic_aberration"@,
        RequestKind::MedianFilter => "median_filter"@,
        RequestKind::Denoise => "denoise"@,
    }
}

impl RequestKind {
    /// The name under which the service knows the request.
    pub fn op(&self) -> (name: &'static str)
        ensures
            name@ == request_op(*self),
    {
        match self {
            RequestKind::Ping => "health",
            RequestKind::ImageResize => "image_resize",
            RequestKind::ImageGamma => "image_gamma",
            RequestKind::ChromaticAberration => "chromatic_aberration",
            RequestKind::MedianFilter => "median_filter",
            RequestKind::Denoise => "denoise",
        }
    }
}

/// Path of the service's socket where none is given.
pub open spec fn default_socket() -> Seq<char> {
    "/tmp/soma_compute.sock"@
}

/// Time allowed for each step of a request, in milliseconds.
pub const REQUEST_TIMEOUT_MS: u64 = 5000;

/// What a look at the service has shown.
#[derive(Debug, Clone, Copy, PartialEq, Eq, Structural)]
pub enum Probe {
    /// No socket exists at the path.
    NoSocket,
    /// The service answered the ping.
    Answered,
    /// The ping failed or was answered with something else.
    Failed,
}

/// The client of the compute service.
pub struct ComputeClient {
    socket_path: String,
    timeout_ms: u64,
    available: Option<bool>,
}

/// The four bytes of a length, most significant first.
pub open spec fn length_prefix(len: u32) -> Seq<u8> {
    seq![
        (len / 0x100_0000) as u8,
        ((len / 0x1_0000) % 0x100) as u8,
        ((len / 0x100) % 0x100) as u8,
        (len % 0x100) as u8,
    ]
}

/// The length that four bytes stand for, most significant first.
pub open spec fn prefixed_length(prefix: Seq<u8>) -> int {
    prefix[0] * 0x100_0000 + prefix[1] * 0x1_0000 + prefix[2] * 0x100 + prefix[3]
}

/// Reading the prefix of a length gives the length back.
pub proof fn lemma_length_prefix_round_trip(len: u32)
    ensures
        prefixed_length(length_prefix(len)) == len,
{
}

impl ComputeClient {
    /// Path of the service's socket.
    pub closed spec fn spec_socket_path(&self) -> Seq<char> {
        self.socket_path@
    }

    /// Time allowed for each step of a request, in milliseconds.
    pub closed spec fn spec_timeout_ms(&self) -> u64 {
        self.timeout_ms
    }

    /// What the client remembers of the service: whether it was there
    /// when the client looked, if it has looked.
    pub closed spec fn spec_available(&self) -> Option<bool> {
        self.available
    }

    /// A client of the service at its usual socket, which has not looked
    /// at the service yet.
    pub fn new() -> (client: ComputeClient)
        ensures
            client.spec_socket_path() == default_socket(),
            client.spec_timeout_ms() == REQUEST_TIMEOUT_MS,
            client.spec_available() is None,
    {
        ComputeClient {
            socket_path: String::from_str("/tmp/soma_compute.sock"),
            timeout_ms: REQUEST_TIMEOUT_MS,
            available: None,
        }
    }

    /// A client of the service at `socket_path`.
    pub fn with_socket(socket_path: &str) -> (client: ComputeClient)
        ensures
            client.spec_socket_path() == socket_path@,
            client.spec_timeout_ms() == REQUEST_TIMEOUT_MS,
            client.spec_available() is None,
    {
        ComputeClient {
            socket_path: String::from_str(socket_path),
            timeout_ms: REQUEST_TIMEOUT_MS,
            available: None,
        }
    }

    /// Path of the service's socket.
    pub fn socket_path(&self) -> (path: &str)
        ensures
            path@ == self.spec_socket_path(),
    {
        self.socket_path.as_str()
    }

    /// Time allowed for each step of a request, in milliseconds.
    #[verifier::when_used_as_spec(spec_timeout_ms)]
    pub fn timeout_ms(&self) -> (ms: u64)
        ensures
            ms == self.spec_timeout_ms(),
    {
        self.timeout_ms
    }

    /// What the client remembers of the service.
    #[verifier::when_used_as_spec(spec_available)]
    pub fn cached_availability(&self) -> (known: Option<bool>)
        ensures
            known == self.spec_available(),
    {
        self.available
    }

    /// Remembers what a look at the service has shown, and says whether the
    /// service is there.  A client that had looked before keeps what it
    /// knew.
    pub fn note_probe(&mut self, probe: Probe) -> (available: bool)
        ensures
            available == match old(self).spec_available() {
                Some(known) => known,
                None => probe == Probe::Answered,
            },
            final(self).spec_available() == Some(available),
            final(self).spec_socket_path() == old(self).spec_socket_path(),
            final(self).spec_timeout_ms() == old(self).spec_timeout_ms(),
    {
        match self.available {
            Some(known) => known,
            None => {
                let there = probe == Probe::Answered;
                self.available = Some(there);
                there
            },
        }
    }

    /// A message as it goes over the socket: four bytes of length, most
    /// significant first, and the body.  None for a body too long for the
    /// length to be told.
    pub fn frame(body: &[u8]) -> (framed: Option<Vec<u8>>)
        ensures
            match framed {
                Some(bytes) => body@.len() <= u32::MAX && bytes@ == length_prefix(
                    body@.len() as u32,
                ) + body@,
                None => body@.len() > u32::MAX,
            },
    {
        let n: usize = body.len();
        if n > 0xffff_ffff {
            return None;
        }
        let len: u32 = n as u32;
        let mut bytes: Vec<u8> = Vec::new();
        bytes.push((len / 0x100_0000) as u8);
        bytes.push(((len / 0x1_0000) % 0x100) as u8);
        bytes.push(((len / 0x100) % 0x100) as u8);
        bytes.push((len % 0x100) as u8);
        let ghost prefix = bytes@;
        let mut i: usize = 0;
        while i < n
            invariant
                i <= n,
                n == body@.len(),
                bytes@ == prefix + body@.subrange(0, i as int),
            decreases n - i,
        {
            bytes.push(body[i]);
            assert(bytes@ =~= prefix + body@.subrange(0, i + 1));
            i = i + 1;
        }
        assert(body@.subrange(0, n as int) =~= body@);
        assert(prefix =~= length_prefix(len));
        Some(bytes)
    }

    /// The length of the body that a prefix of four bytes announces.
    pub fn body_length(prefix: &[u8; 4]) -> (len: u32)
        ensures
            len == prefixed_length(prefix@),
    {
        let a: u32 = prefix[0] as u32;
        let b: u32 = prefix[1] as u32;
        let c: u32 = prefix[2] as u32;
        let d: u32 = prefix[3] as u32;
        a * 0x100_0000 + b * 0x1_0000 + c * 0x100 + d
    }
}

impl Default for ComputeClient {
    fn default() -> (client: ComputeClient)
        ensures
            client.spec_socket_path() == default_socket(),
            client.spec_timeout_ms() == REQUEST_TIMEOUT_MS,
            client.spec_available() is None,
    {
        ComputeClient::new()
    }
}

} // verus!
