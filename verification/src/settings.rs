//! The configuration record a cache entry is built from.
//!
//! A cached resource is a QUIC configuration: the protocol version, the
//! application protocol list, whether peers are verified and against which
//! certificate directory, and the transport limits. [`QuicSettings::build`]
//! assembles the record for a key and is where construction can fail: a
//! certificate-directory path is handed to the TLS library as a C string,
//! so a path with an interior NUL byte is invalid.

use vstd::prelude::*;
use vstd::utf8::encode_utf8;

verus! {

/// Whole-connection incoming buffer limit, in bytes.
pub const MAX_INCOMING_BUFFER_SIZE_WHOLE: u64 = 10000000;

/// Per-stream incoming buffer limit, in bytes.
pub const MAX_INCOMING_BUFFER_SIZE_EACH: u64 = 1000000;

/// How many concurrent streams of each kind a connection allows.
pub const MAX_CONCURRENT_STREAM_SIZE: u64 = 100;

/// Maximum datagram size we will accept.
pub const MAX_DATAGRAM_SIZE: usize = 1350;

/// How long with no packets before we assume a connection is dead, in milliseconds.
pub const QUICHE_IDLE_TIMEOUT_MS: u64 = 180000;

/// The QUIC version the configuration is built for (QUIC version 1).
pub const QUIC_PROTOCOL_VERSION: u32 = 1;

/// The key a configuration is selected by: an optional
/// certificate-directory path, `None` meaning peers are not verified.
pub type Key = Option<String>;

/// Construction failed: the certificate-directory path cannot be handed
/// to the TLS library. Lookup, sharing, keep-alive replacement and
/// garbage collection never fail; this is the only error the cache
/// propagates.
#[derive(Debug, Clone, Copy, PartialEq, Eq)]
pub struct ConstructionError;

/// The value of a key: the path's characters, when there is one.
pub open spec fn key_view(k: Key) -> Option<Seq<char>> {
    match k {
        Some(s) => Some(s@),
        None => None,
    }
}

/// The value of a borrowed path argument, in the same shape as a key.
pub open spec fn opt_path_view(p: Option<&str>) -> Option<Seq<char>> {
    match p {
        Some(s) => Some(s@),
        None => None,
    }
}

/// A path can be handed to the TLS library iff its UTF-8 bytes hold no NUL.
pub open spec fn path_ok(s: Seq<char>) -> bool {
    forall|i: int| 0 <= i < encode_utf8(s).len() ==> encode_utf8(s)[i] != 0
}

/// A key can be built iff it is `None` or its path can be handed over.
pub open spec fn key_ok(k: Option<Seq<char>>) -> bool {
    match k {
        Some(s) => path_ok(s),
        None => true,
    }
}

/// What a constructed configuration holds. The heavyweight TLS state built
/// from it is opaque to the cache; this record carries every parameter the
/// construction is driven by.
#[derive(Debug, Clone, PartialEq, Eq)]
pub struct QuicSettings {
    /// Whether the peer's certificate is verified.
    pub verify_peer: bool,
    /// The directory the verification material is loaded from.
    pub cert_dir: Option<String>,
    pub version: u32,
    /// The application protocols offered, `h3` alone.
    pub application_protos: Vec<Vec<u8>>,
    pub max_idle_timeout_ms: u64,
    pub max_recv_udp_payload_size: usize,
    pub initial_max_data: u64,
    pub initial_max_stream_data_bidi_local: u64,
    pub initial_max_stream_data_bidi_remote: u64,
    pub initial_max_stream_data_uni: u64,
    pub initial_max_streams_bidi: u64,
    pub initial_max_streams_uni: u64,
    pub disable_active_migration: bool,
}

impl QuicSettings {
    /// The record a given key must produce: peers are verified exactly when
    /// a certificate directory is given, the directory is the key's path,
    /// and every limit has its fixed value.
    pub open spec fn is_for(self, k: Option<Seq<char>>) -> bool {
        &&& self.verify_peer == (k is Some)
        &&& key_view(self.cert_dir) == k
        &&& self.version == QUIC_PROTOCOL_VERSION
        &&& self.application_protos@.len() == 1
        &&& self.application_protos@[0]@ == seq![104u8, 51u8]
        &&& self.max_idle_timeout_ms == QUICHE_IDLE_TIMEOUT_MS
        &&& self.max_recv_udp_payload_size == MAX_DATAGRAM_SIZE
        &&& self.initial_max_data == MAX_INCOMING_BUFFER_SIZE_WHOLE
        &&& self.initial_max_stream_data_bidi_local == MAX_INCOMING_BUFFER_SIZE_EACH
        &&& self.initial_max_stream_data_bidi_remote == MAX_INCOMING_BUFFER_SIZE_EACH
        &&& self.initial_max_stream_data_uni == MAX_INCOMING_BUFFER_SIZE_EACH
        &&& self.initial_max_streams_bidi == MAX_CONCURRENT_STREAM_SIZE
        &&& self.initial_max_streams_uni == MAX_CONCURRENT_STREAM_SIZE
        &&& self.disable_active_migration
    }

    /// Builds the configuration record for a key. Succeeds iff the key is
    /// buildable, and then returns exactly the record the key calls for.
    pub fn build(cert_path: Option<&str>) -> (r: Result<QuicSettings, ConstructionError>)
        ensures
            r matches Ok(s) ==> s.is_for(opt_path_view(cert_path)),
            r is Ok <==> key_ok(opt_path_view(cert_path)),
    {
        let cert_dir: Option<String> = match cert_path {
            Some(path) => {
                if !path_has_no_nul(path) {
                    return Err(ConstructionError);
                }
                Some(path.to_owned())
            },
            None => None,
        };
        let mut h3: Vec<u8> = Vec::new();
        h3.push(104);
        h3.push(51);
        let mut protos: Vec<Vec<u8>> = Vec::new();
        protos.push(h3);
        proof {
            assert(protos@[0]@ =~= seq![104u8, 51u8]);
        }
        Ok(QuicSettings {
            verify_peer: cert_dir.is_some(),
            cert_dir,
            version: QUIC_PROTOCOL_VERSION,
            application_protos: protos,
            max_idle_timeout_ms: QUICHE_IDLE_TIMEOUT_MS,
            max_recv_udp_payload_size: MAX_DATAGRAM_SIZE,
            initial_max_data: MAX_INCOMING_BUFFER_SIZE_WHOLE,
            initial_max_stream_data_bidi_local: MAX_INCOMING_BUFFER_SIZE_EACH,
            initial_max_stream_data_bidi_remote: MAX_INCOMING_BUFFER_SIZE_EACH,
            initial_max_stream_data_uni: MAX_INCOMING_BUFFER_SIZE_EACH,
            initial_max_streams_bidi: MAX_CONCURRENT_STREAM_SIZE,
            initial_max_streams_uni: MAX_CONCURRENT_STREAM_SIZE,
            disable_active_migration: true,
        })
    }
}

/// Checks that a path's bytes hold no NUL, so it can become a C string.
fn path_has_no_nul(path: &str) -> (r: bool)
    ensures
        r == path_ok(path@),
{
    let bytes = path.as_bytes();
    let mut i: usize = 0;
    while i < bytes.len()
        invariant
            0 <= i <= bytes@.len(),
            bytes@ == encode_utf8(path@),
            forall|j: int| 0 <= j < i ==> bytes@[j] != 0,
        decreases bytes@.len() - i,
    {
        if bytes[i] == 0 {
            return false;
        }
        i = i + 1;
    }
    true
}

} // verus!
