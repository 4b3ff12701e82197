//! Classification of local-socket failures.
//!
//! A failure is classified by its raw code where the platform gave one and
//! the code belongs to a family that the platform's table lists, and by its
//! portable kind otherwise. Raw codes are not portable: every
//! classification goes by a table, and the tables that the library knows
//! are written down here, one per platform.

use vstd::prelude::*;

verus! {

/// Linux, `EPIPE`: a write to a socket whose peer has closed.
pub const LINUX_BROKEN_PIPE: i32 = 32;

/// Linux, `ECONNRESET`: the peer reset the connection.
pub const LINUX_CONNECTION_RESET: i32 = 104;

/// Linux, `ECONNREFUSED`: a socket exists at the address and nobody listens.
pub const LINUX_CONNECTION_REFUSED: i32 = 111;

/// Linux, `ENOENT`: no socket exists at the address.
pub const LINUX_NO_ENTRY: i32 = 2;

/// macOS and the BSDs, `EPIPE`: a write to a socket whose peer has closed.
pub const BSD_BROKEN_PIPE: i32 = 32;

/// macOS and the BSDs, `ECONNRESET`: the peer reset the connection.
pub const BSD_CONNECTION_RESET: i32 = 54;

/// macOS and the BSDs, `ECONNREFUSED`: a socket exists at the address and
/// nobody listens.
pub const BSD_CONNECTION_REFUSED: i32 = 61;

/// macOS and the BSDs, `ENOENT`: no socket exists at the address.
pub const BSD_NO_ENTRY: i32 = 2;

/// Windows, `ERROR_BROKEN_PIPE`: the pipe has been ended.
pub const WINDOWS_BROKEN_PIPE: i32 = 109;

/// Windows, `ERROR_NO_DATA`: the pipe is being closed.
pub const WINDOWS_NO_DATA: i32 = 232;

/// Windows, `ERROR_PIPE_NOT_CONNECTED`: no process is on the other end of
/// the pipe.
pub const WINDOWS_PIPE_NOT_CONNECTED: i32 = 233;

/// Windows, `ERROR_FILE_NOT_FOUND`: no pipe of that name exists.
pub const WINDOWS_FILE_NOT_FOUND: i32 = 2;

/// A platform whose raw codes the library knows.
#[derive(Clone, Copy, Debug, PartialEq, Eq, Structural)]
pub enum Platform {
    /// Linux with the generic numbering of error codes, as on x86, ARM,
    /// RISC-V and PowerPC. MIPS and SPARC number differently and need a
    /// table of their own.
    Linux,
    /// macOS, FreeBSD, NetBSD, OpenBSD and DragonFly.
    Bsd,
    /// Windows, where a local socket is a named pipe.
    Windows,
}

/// The coarse, portable kind of a transport failure.
#[derive(Clone, Copy, Debug, PartialEq, Eq, Structural)]
pub enum FailureKind {
    PermissionDenied,
    NotFound,
    Other,
}

/// What the classifier reads of a transport failure: the platform's raw
/// code, where the platform gave one, and the portable kind.
#[derive(Clone, Copy, Debug, PartialEq, Eq)]
pub struct TransportError {
    pub code: Option<i32>,
    pub kind: FailureKind,
}

/// The raw codes of one target platform, by the family they stand for.
#[derive(Clone, Debug)]
pub struct PlatformCodes {
    /// Codes of the "broken pipe / connection reset by peer" family.
    pub peer_closed: Vec<i32>,
    /// Codes of the "connection refused / no such endpoint" family.
    pub no_endpoint: Vec<i32>,
}

/// What a failed send amounts to for the caller.
#[derive(Clone, Copy, Debug, PartialEq, Eq)]
pub enum ConsoleSendError {
    /// Nobody listens at the address.
    NotFound,
    /// The address exists but access to it was denied.
    PermissionDenied,
    /// The peer closed its side before or during the exchange.
    OtherSocketClosed,
    /// Anything else, with what the classifier read of the failure.
    GenericError(TransportError),
}

/// The codes with which `platform` reports that the peer has closed.
pub open spec fn peer_closed_codes(platform: Platform) -> Seq<i32> {
    match platform {
        Platform::Linux => seq![LINUX_BROKEN_PIPE, LINUX_CONNECTION_RESET],
        Platform::Bsd => seq![BSD_BROKEN_PIPE, BSD_CONNECTION_RESET],
        Platform::Windows => seq![
            WINDOWS_BROKEN_PIPE,
            WINDOWS_NO_DATA,
            WINDOWS_PIPE_NOT_CONNECTED,
        ],
    }
}

/// The codes with which `platform` reports that nobody listens at the
/// address.
pub open spec fn no_endpoint_codes(platform: Platform) -> Seq<i32> {
    match platform {
        Platform::Linux => seq![LINUX_CONNECTION_REFUSED, LINUX_NO_ENTRY],
        Platform::Bsd => seq![BSD_CONNECTION_REFUSED, BSD_NO_ENTRY],
        Platform::Windows => seq![WINDOWS_FILE_NOT_FOUND],
    }
}

/// The classification by portable kind alone.
pub open spec fn classify_kind(e: TransportError) -> ConsoleSendError {
    match e.kind {
        FailureKind::PermissionDenied => ConsoleSendError::PermissionDenied,
        FailureKind::NotFound => ConsoleSendError::NotFound,
        FailureKind::Other => ConsoleSendError::GenericError(e),
    }
}

/// The classification rule: a raw code of the peer-closed family first, then
/// one of the no-endpoint family, then the portable kind.
pub open spec fn classify_with(
    peer_closed: Seq<i32>,
    no_endpoint: Seq<i32>,
    e: TransportError,
) -> ConsoleSendError {
    if e.code is Some && peer_closed.contains(e.code->0) {
        ConsoleSendError::OtherSocketClosed
    } else if e.code is Some && no_endpoint.contains(e.code->0) {
        ConsoleSendError::NotFound
    } else {
        classify_kind(e)
    }
}

/// The rule over the table of `platform`.
pub open spec fn classify_on(platform: Platform, e: TransportError) -> ConsoleSendError {
    classify_with(peer_closed_codes(platform), no_endpoint_codes(platform), e)
}

/// Whether `code` occurs in `codes`.
pub fn code_listed(codes: &Vec<i32>, code: i32) -> (found: bool)
    ensures
        found == codes@.contains(code),
{
    let mut i: usize = 0;
    while i < codes.len()
        invariant
            i <= codes.len(),
            forall|j: int| 0 <= j < i ==> codes@[j] != code,
        decreases codes.len() - i,
    {
        if codes[i] == code {
            return true;
        }
        i += 1;
    }
    false
}

impl TransportError {
    /// A failure with the given raw code and kind.
    pub fn new(code: Option<i32>, kind: FailureKind) -> (e: Self)
        ensures
            e.code == code,
            e.kind == kind,
    {
        TransportError { code, kind }
    }

    /// A failure for which the platform gave no raw code.
    pub fn of_kind(kind: FailureKind) -> (e: Self)
        ensures
            e.code is None,
            e.kind == kind,
    {
        TransportError { code: None, kind }
    }
}

impl PlatformCodes {
    /// A table of the given families.
    pub fn new(peer_closed: Vec<i32>, no_endpoint: Vec<i32>) -> (table: Self)
        ensures
            table.peer_closed@ == peer_closed@,
            table.no_endpoint@ == no_endpoint@,
    {
        PlatformCodes { peer_closed, no_endpoint }
    }

    /// The table of `platform`.
    pub fn for_platform(platform: Platform) -> (table: Self)
        ensures
            table.peer_closed@ == peer_closed_codes(platform),
            table.no_endpoint@ == no_endpoint_codes(platform),
    {
        let mut peer_closed: Vec<i32> = Vec::new();
        let mut no_endpoint: Vec<i32> = Vec::new();
        match platform {
            Platform::Linux => {
                peer_closed.push(LINUX_BROKEN_PIPE);
                peer_closed.push(LINUX_CONNECTION_RESET);
                no_endpoint.push(LINUX_CONNECTION_REFUSED);
                no_endpoint.push(LINUX_NO_ENTRY);
            },
            Platform::Bsd => {
                peer_closed.push(BSD_BROKEN_PIPE);
                peer_closed.push(BSD_CONNECTION_RESET);
                no_endpoint.push(BSD_CONNECTION_REFUSED);
                no_endpoint.push(BSD_NO_ENTRY);
            },
            Platform::Windows => {
                peer_closed.push(WINDOWS_BROKEN_PIPE);
                peer_closed.push(WINDOWS_NO_DATA);
                peer_closed.push(WINDOWS_PIPE_NOT_CONNECTED);
                no_endpoint.push(WINDOWS_FILE_NOT_FOUND);
            },
        }
        assert(peer_closed@ =~= peer_closed_codes(platform));
        assert(no_endpoint@ =~= no_endpoint_codes(platform));
        PlatformCodes { peer_closed, no_endpoint }
    }

    /// Classifies `e` by this table.
    pub fn classify(&self, e: TransportError) -> (outcome: ConsoleSendError)
        ensures
            outcome == classify_with(self.peer_closed@, self.no_endpoint@, e),
    {
        match e.code {
            Some(code) => {
                if code_listed(&self.peer_closed, code) {
                    return ConsoleSendError::OtherSocketClosed;
                }
                if code_listed(&self.no_endpoint, code) {
                    return ConsoleSendError::NotFound;
                }
            },
            None => {},
        }
        match e.kind {
            FailureKind::PermissionDenied => ConsoleSendError::PermissionDenied,
            FailureKind::NotFound => ConsoleSendError::NotFound,
            FailureKind::Other => ConsoleSendError::GenericError(e),
        }
    }
}

impl ConsoleSendError {
    /// Whether this is the benign "the peer closed" outcome.
    pub fn is_peer_closed(&self) -> (closed: bool)
        ensures
            closed == (*self is OtherSocketClosed),
    {
        match self {
            ConsoleSendError::OtherSocketClosed => true,
            _ => false,
        }
    }
}

/// What the rule gives on each platform, code by code: the platform's
/// broken pipe and connection reset are a closed peer, its refused
/// connection and missing endpoint are `NotFound`, and every other failure
/// goes by its kind.
pub proof fn lemma_platform_rule(platform: Platform, e: TransportError)
    ensures
        classify_on(platform, e) == match platform {
            Platform::Linux => if e.code == Some(LINUX_BROKEN_PIPE) || e.code == Some(
                LINUX_CONNECTION_RESET,
            ) {
                ConsoleSendError::OtherSocketClosed
            } else if e.code == Some(LINUX_CONNECTION_REFUSED) || e.code == Some(LINUX_NO_ENTRY) {
                ConsoleSendError::NotFound
            } else {
                classify_kind(e)
            },
            Platform::Bsd => if e.code == Some(BSD_BROKEN_PIPE) || e.code == Some(
                BSD_CONNECTION_RESET,
            ) {
                ConsoleSendError::OtherSocketClosed
            } else if e.code == Some(BSD_CONNECTION_REFUSED) || e.code == Some(BSD_NO_ENTRY) {
                ConsoleSendError::NotFound
            } else {
                classify_kind(e)
            },
            Platform::Windows => if e.code == Some(WINDOWS_BROKEN_PIPE) || e.code == Some(
                WINDOWS_NO_DATA,
            ) || e.code == Some(WINDOWS_PIPE_NOT_CONNECTED) {
                ConsoleSendError::OtherSocketClosed
            } else if e.code == Some(WINDOWS_FILE_NOT_FOUND) {
                ConsoleSendError::NotFound
            } else {
                classify_kind(e)
            },
        },
{
    let closed = peer_closed_codes(platform);
    let missing = no_endpoint_codes(platform);
    match platform {
        Platform::Linux => {
            assert(closed[0] == LINUX_BROKEN_PIPE && closed[1] == LINUX_CONNECTION_RESET);
            assert(missing[0] == LINUX_CONNECTION_REFUSED && missing[1] == LINUX_NO_ENTRY);
        },
        Platform::Bsd => {
            assert(closed[0] == BSD_BROKEN_PIPE && closed[1] == BSD_CONNECTION_RESET);
            assert(missing[0] == BSD_CONNECTION_REFUSED && missing[1] == BSD_NO_ENTRY);
        },
        Platform::Windows => {
            assert(closed[0] == WINDOWS_BROKEN_PIPE && closed[1] == WINDOWS_NO_DATA && closed[2]
                == WINDOWS_PIPE_NOT_CONNECTED);
            assert(missing[0] == WINDOWS_FILE_NOT_FOUND);
        },
    }
}

/// A connect that fails because nobody listens is classified as `NotFound`
/// by every table: whether the platform reports it by a code of the table's
/// no-endpoint family, or by the kind alone.
pub proof fn lemma_no_listener_is_not_found(
    peer_closed: Seq<i32>,
    no_endpoint: Seq<i32>,
    e: TransportError,
)
    requires
        !(e.code is Some && peer_closed.contains(e.code->0)),
        (e.code is Some && no_endpoint.contains(e.code->0)) || e.kind == FailureKind::NotFound,
    ensures
        classify_with(peer_closed, no_endpoint, e) == ConsoleSendError::NotFound,
{
}

} // verus!
