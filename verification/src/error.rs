//! Stable error codes of the protocol and the library's error type.

use vstd::prelude::*;

verus! {

#[derive(Debug, Clone, Copy, PartialEq, Eq, Structural, Hash)]
pub enum ErrorCode {
    Ddp1001InvalidFrame,
    Ddp1002UnsupportedVersion,
    Ddp1003UnknownCriticalExtension,
    Ddp1004UnsupportedHash,
    Ddp1005BadIdentifier,
    Ddp1006LimitExceeded,
    Ddp1007Expired,
    Ddp1008NotRecipient,
    Ddp1009Sealed,
    Dds2001StoreFull,
    Dds2002CorruptChunk,
    Dds2003MissingChunk,
    Dds2004CorruptMetadata,
    Dda3001AuthFailed,
    Dda3002Replay,
    Ddr4001RouteUnavailable,
    Ddr4002ReplicationExhausted,
    Ddi5001UnknownContact,
    Ddc6001Crypto,
    Ddi7001Io,
    Ddx0000Internal,
}

/// The stable text of an error code.
pub open spec fn code_name(c: ErrorCode) -> Seq<char> {
    match c {
        ErrorCode::Ddp1001InvalidFrame => "DDP1001_INVALID_FRAME"@,
        ErrorCode::Ddp1002UnsupportedVersion => "DDP1002_UNSUPPORTED_VERSION"@,
        ErrorCode::Ddp1003UnknownCriticalExtension => "DDP1003_UNKNOWN_CRITICAL_EXTENSION"@,
        ErrorCode::Ddp1004UnsupportedHash => "DDP1004_UNSUPPORTED_HASH"@,
        ErrorCode::Ddp1005BadIdentifier => "DDP1005_BAD_IDENTIFIER"@,
        ErrorCode::Ddp1006LimitExceeded => "DDP1006_LIMIT_EXCEEDED"@,
        ErrorCode::Ddp1007Expired => "DDP1007_EXPIRED"@,
        ErrorCode::Ddp1008NotRecipient => "DDP1008_NOT_RECIPIENT"@,
        ErrorCode::Ddp1009Sealed => "DDP1009_SEALED"@,
        ErrorCode::Dds2001StoreFull => "DDS2001_STORE_FULL"@,
        ErrorCode::Dds2002CorruptChunk => "DDS2002_CORRUPT_CHUNK"@,
        ErrorCode::Dds2003MissingChunk => "DDS2003_MISSING_CHUNK"@,
        ErrorCode::Dds2004CorruptMetadata => "DDS2004_CORRUPT_METADATA"@,
        ErrorCode::Dda3001AuthFailed => "DDA3001_AUTH_FAILED"@,
        ErrorCode::Dda3002Replay => "DDA3002_REPLAY"@,
        ErrorCode::Ddr4001RouteUnavailable => "DDR4001_ROUTE_UNAVAILABLE"@,
        ErrorCode::Ddr4002ReplicationExhausted => "DDR4002_REPLICATION_EXHAUSTED"@,
        ErrorCode::Ddi5001UnknownContact => "DDI5001_UNKNOWN_CONTACT"@,
        ErrorCode::Ddc6001Crypto => "DDC6001_CRYPTO"@,
        ErrorCode::Ddi7001Io => "DDI7001_IO"@,
        ErrorCode::Ddx0000Internal => "DDX0000_INTERNAL"@,
    }
}

/// The category an error code belongs to.
pub open spec fn category_name(c: ErrorCode) -> Seq<char> {
    match c {
        ErrorCode::Ddp1001InvalidFrame
        | ErrorCode::Ddp1002UnsupportedVersion
        | ErrorCode::Ddp1003UnknownCriticalExtension
        | ErrorCode::Ddp1004UnsupportedHash
        | ErrorCode::Ddp1005BadIdentifier
        | ErrorCode::Ddp1006LimitExceeded
        | ErrorCode::Ddp1007Expired
        | ErrorCode::Ddp1008NotRecipient
        | ErrorCode::Ddp1009Sealed => "protocol"@,
        ErrorCode::Dds2001StoreFull
        | ErrorCode::Dds2002CorruptChunk
        | ErrorCode::Dds2003MissingChunk
        | ErrorCode::Dds2004CorruptMetadata => "store"@,
        ErrorCode::Dda3001AuthFailed | ErrorCode::Dda3002Replay => "auth"@,
        ErrorCode::Ddr4001RouteUnavailable | ErrorCode::Ddr4002ReplicationExhausted => "routing"@,
        ErrorCode::Ddi5001UnknownContact => "identity"@,
        ErrorCode::Ddc6001Crypto => "crypto"@,
        ErrorCode::Ddi7001Io => "io"@,
        ErrorCode::Ddx0000Internal => "internal"@,
    }
}

/// Only a full store, an unavailable route and I/O failures are worth retrying.
pub open spec fn code_retryable(c: ErrorCode) -> bool {
    c == ErrorCode::Dds2001StoreFull || c == ErrorCode::Ddr4001RouteUnavailable || c
        == ErrorCode::Ddi7001Io
}

impl ErrorCode {
    pub fn as_str(self) -> (s: &'static str)
        ensures
            s@ == code_name(self),
    {
        match self {
            Self::Ddp1001InvalidFrame => "DDP1001_INVALID_FRAME",
            Self::Ddp1002UnsupportedVersion => "DDP1002_UNSUPPORTED_VERSION",
            Self::Ddp1003UnknownCriticalExtension => "DDP1003_UNKNOWN_CRITICAL_EXTENSION",
            Self::Ddp1004UnsupportedHash => "DDP1004_UNSUPPORTED_HASH",
            Self::Ddp1005BadIdentifier => "DDP1005_BAD_IDENTIFIER",
            Self::Ddp1006LimitExceeded => "DDP1006_LIMIT_EXCEEDED",
            Self::Ddp1007Expired => "DDP1007_EXPIRED",
            Self::Ddp1008NotRecipient => "DDP1008_NOT_RECIPIENT",
            Self::Ddp1009Sealed => "DDP1009_SEALED",
            Self::Dds2001StoreFull => "DDS2001_STORE_FULL",
            Self::Dds2002CorruptChunk => "DDS2002_CORRUPT_CHUNK",
            Self::Dds2003MissingChunk => "DDS2003_MISSING_CHUNK",
            Self::Dds2004CorruptMetadata => "DDS2004_CORRUPT_METADATA",
            Self::Dda3001AuthFailed => "DDA3001_AUTH_FAILED",
            Self::Dda3002Replay => "DDA3002_REPLAY",
            Self::Ddr4001RouteUnavailable => "DDR4001_ROUTE_UNAVAILABLE",
            Self::Ddr4002ReplicationExhausted => "DDR4002_REPLICATION_EXHAUSTED",
            Self::Ddi5001UnknownContact => "DDI5001_UNKNOWN_CONTACT",
            Self::Ddc6001Crypto => "DDC6001_CRYPTO",
            Self::Ddi7001Io => "DDI7001_IO",
            Self::Ddx0000Internal => "DDX0000_INTERNAL",
        }
    }

    pub fn category(self) -> (s: &'static str)
        ensures
            s@ == category_name(self),
    {
        match self {
            Self::Ddp1001InvalidFrame
            | Self::Ddp1002UnsupportedVersion
            | Self::Ddp1003UnknownCriticalExtension
            | Self::Ddp1004UnsupportedHash
            | Self::Ddp1005BadIdentifier
            | Self::Ddp1006LimitExceeded
            | Self::Ddp1007Expired
            | Self::Ddp1008NotRecipient
            | Self::Ddp1009Sealed => "protocol",
            Self::Dds2001StoreFull
            | Self::Dds2002CorruptChunk
            | Self::Dds2003MissingChunk
            | Self::Dds2004CorruptMetadata => "store",
            Self::Dda3001AuthFailed | Self::Dda3002Replay => "auth",
            Self::Ddr4001RouteUnavailable | Self::Ddr4002ReplicationExhausted => "routing",
            Self::Ddi5001UnknownContact => "identity",
            Self::Ddc6001Crypto => "crypto",
            Self::Ddi7001Io => "io",
            Self::Ddx0000Internal => "internal",
        }
    }

    pub fn retryable(self) -> (b: bool)
        ensures
            b == code_retryable(self),
    {
        match self {
            Self::Dds2001StoreFull | Self::Ddr4001RouteUnavailable | Self::Ddi7001Io => true,
            _ => false,
        }
    }
}

/// The library's error: a coded protocol error, or an I/O failure reported by the host.
#[derive(Debug)]
pub enum DdError {
    Coded { code: ErrorCode, message: String, context: Option<String> },
    Io { message: String },
}

pub type DdResult<T> = core::result::Result<T, DdError>;

/// The code an error reports.
pub open spec fn err_code(e: DdError) -> ErrorCode {
    match e {
        DdError::Coded { code, .. } => code,
        DdError::Io { .. } => ErrorCode::Ddi7001Io,
    }
}

/// `r` failed with code `c`.
pub open spec fn fails_with<T>(r: DdResult<T>, c: ErrorCode) -> bool {
    r matches Err(e) && err_code(e) == c
}

impl DdError {
    pub fn protocol(code: ErrorCode, message: String) -> (e: Self)
        ensures
            e == (DdError::Coded { code, message, context: None }),
    {
        Self::Coded { code, message, context: None }
    }

    /// Attaches context to a coded error; an I/O error is returned unchanged.
    pub fn with_context(self, ctx: String) -> (e: Self)
        ensures
            match self {
                DdError::Coded { code, message, .. } => e == (DdError::Coded {
                    code,
                    message,
                    context: Some(ctx),
                }),
                DdError::Io { .. } => e == self,
            },
    {
        match self {
            Self::Coded { code, message, .. } => Self::Coded { code, message, context: Some(ctx) },
            other => other,
        }
    }

    pub fn code(&self) -> (c: ErrorCode)
        ensures
            c == err_code(*self),
    {
        match self {
            Self::Coded { code, .. } => *code,
            Self::Io { .. } => ErrorCode::Ddi7001Io,
        }
    }

    pub fn retryable(&self) -> (b: bool)
        ensures
            b == code_retryable(err_code(*self)),
    {
        self.code().retryable()
    }

    pub fn crypto(msg: String) -> (e: Self)
        ensures
            e == (DdError::Coded { code: ErrorCode::Ddc6001Crypto, message: msg, context: None }),
    {
        Self::protocol(ErrorCode::Ddc6001Crypto, msg)
    }

    pub fn invalid_frame(msg: String) -> (e: Self)
        ensures
            e == (DdError::Coded {
                code: ErrorCode::Ddp1001InvalidFrame,
                message: msg,
                context: None,
            }),
    {
        Self::protocol(ErrorCode::Ddp1001InvalidFrame, msg)
    }

    /// The error's text: the code's name, a colon and the message.
    pub fn describe(&self) -> (s: String)
        ensures
            match self {
                DdError::Coded { code, message, .. } => s@ == code_name(*code) + ": "@ + message@,
                DdError::Io { message } => s@ == message@,
            },
    {
        match self {
            Self::Coded { code, message, .. } => {
                let mut s = crate::text::owned(code.as_str());
                s.append(": ");
                s.append(message.as_str());
                s
            },
            Self::Io { message } => message.clone(),
        }
    }
}

/// A coded error with a message given as a literal.
pub fn coded(code: ErrorCode, msg: &str) -> (e: DdError)
    ensures
        err_code(e) == code,
        e matches DdError::Coded { code: c, message, context } && c == code && message@ == msg@
            && context is None,
{
    DdError::protocol(code, crate::text::owned(msg))
}


/// The class letter and the four digits of an error code, as its text spells them.
pub open spec fn code_key(c: ErrorCode) -> (char, char, char, char, char) {
    match c {
        ErrorCode::Ddp1001InvalidFrame => ('P', '1', '0', '0', '1'),
        ErrorCode::Ddp1002UnsupportedVersion => ('P', '1', '0', '0', '2'),
        ErrorCode::Ddp1003UnknownCriticalExtension => ('P', '1', '0', '0', '3'),
        ErrorCode::Ddp1004UnsupportedHash => ('P', '1', '0', '0', '4'),
        ErrorCode::Ddp1005BadIdentifier => ('P', '1', '0', '0', '5'),
        ErrorCode::Ddp1006LimitExceeded => ('P', '1', '0', '0', '6'),
        ErrorCode::Ddp1007Expired => ('P', '1', '0', '0', '7'),
        ErrorCode::Ddp1008NotRecipient => ('P', '1', '0', '0', '8'),
        ErrorCode::Ddp1009Sealed => ('P', '1', '0', '0', '9'),
        ErrorCode::Dds2001StoreFull => ('S', '2', '0', '0', '1'),
        ErrorCode::Dds2002CorruptChunk => ('S', '2', '0', '0', '2'),
        ErrorCode::Dds2003MissingChunk => ('S', '2', '0', '0', '3'),
        ErrorCode::Dds2004CorruptMetadata => ('S', '2', '0', '0', '4'),
        ErrorCode::Dda3001AuthFailed => ('A', '3', '0', '0', '1'),
        ErrorCode::Dda3002Replay => ('A', '3', '0', '0', '2'),
        ErrorCode::Ddr4001RouteUnavailable => ('R', '4', '0', '0', '1'),
        ErrorCode::Ddr4002ReplicationExhausted => ('R', '4', '0', '0', '2'),
        ErrorCode::Ddi5001UnknownContact => ('I', '5', '0', '0', '1'),
        ErrorCode::Ddc6001Crypto => ('C', '6', '0', '0', '1'),
        ErrorCode::Ddi7001Io => ('I', '7', '0', '0', '1'),
        ErrorCode::Ddx0000Internal => ('X', '0', '0', '0', '0'),
    }
}

/// The class letter and digits read off a code text.
pub open spec fn text_key(s: Seq<char>) -> (char, char, char, char, char) {
    (s[2], s[3], s[4], s[5], s[6])
}

/// Whether a character is a decimal digit.
pub open spec fn is_digit_char(ch: char) -> bool {
    '0' <= ch <= '9'
}

/// The category a code text stands for: by its class letter, and for `I` by its first digit
/// (`5` identity, otherwise input/output).
pub open spec fn category_of_text(s: Seq<char>) -> Seq<char> {
    if s[2] == 'P' {
        "protocol"@
    } else if s[2] == 'S' {
        "store"@
    } else if s[2] == 'A' {
        "auth"@
    } else if s[2] == 'R' {
        "routing"@
    } else if s[2] == 'C' {
        "crypto"@
    } else if s[2] == 'X' {
        "internal"@
    } else if s[3] == '5' {
        "identity"@
    } else {
        "io"@
    }
}

proof fn lemma_code_text_key(c: ErrorCode)
    ensures
        code_name(c).len() > 8,
        text_key(code_name(c)) == code_key(c),
        code_name(c)[7] == '_',
{
    match c {
        ErrorCode::Ddp1001InvalidFrame => {
            reveal_strlit("DDP1001_INVALID_FRAME");
        },
        ErrorCode::Ddp1002UnsupportedVersion => {
            reveal_strlit("DDP1002_UNSUPPORTED_VERSION");
        },
        ErrorCode::Ddp1003UnknownCriticalExtension => {
            reveal_strlit("DDP1003_UNKNOWN_CRITICAL_EXTENSION");
        },
        ErrorCode::Ddp1004UnsupportedHash => {
            reveal_strlit("DDP1004_UNSUPPORTED_HASH");
        },
        ErrorCode::Ddp1005BadIdentifier => {
            reveal_strlit("DDP1005_BAD_IDENTIFIER");
        },
        ErrorCode::Ddp1006LimitExceeded => {
            reveal_strlit("DDP1006_LIMIT_EXCEEDED");
        },
        ErrorCode::Ddp1007Expired => {
            reveal_strlit("DDP1007_EXPIRED");
        },
        ErrorCode::Ddp1008NotRecipient => {
            reveal_strlit("DDP1008_NOT_RECIPIENT");
        },
        ErrorCode::Ddp1009Sealed => {
            reveal_strlit("DDP1009_SEALED");
        },
        ErrorCode::Dds2001StoreFull => {
            reveal_strlit("DDS2001_STORE_FULL");
        },
        ErrorCode::Dds2002CorruptChunk => {
            reveal_strlit("DDS2002_CORRUPT_CHUNK");
        },
        ErrorCode::Dds2003MissingChunk => {
            reveal_strlit("DDS2003_MISSING_CHUNK");
        },
        ErrorCode::Dds2004CorruptMetadata => {
            reveal_strlit("DDS2004_CORRUPT_METADATA");
        },
        ErrorCode::Dda3001AuthFailed => {
            reveal_strlit("DDA3001_AUTH_FAILED");
        },
        ErrorCode::Dda3002Replay => {
            reveal_strlit("DDA3002_REPLAY");
        },
        ErrorCode::Ddr4001RouteUnavailable => {
            reveal_strlit("DDR4001_ROUTE_UNAVAILABLE");
        },
        ErrorCode::Ddr4002ReplicationExhausted => {
            reveal_strlit("DDR4002_REPLICATION_EXHAUSTED");
        },
        ErrorCode::Ddi5001UnknownContact => {
            reveal_strlit("DDI5001_UNKNOWN_CONTACT");
        },
        ErrorCode::Ddc6001Crypto => {
            reveal_strlit("DDC6001_CRYPTO");
        },
        ErrorCode::Ddi7001Io => {
            reveal_strlit("DDI7001_IO");
        },
        ErrorCode::Ddx0000Internal => {
            reveal_strlit("DDX0000_INTERNAL");
        },
    }
}

/// Error codes are told apart by their texts, every text is `DD`, a class letter among
/// `P S A R I C X`, four digits and `_` followed by the name, and the category of a code
/// follows from its text: the class letter, and for `I` its first digit.
pub proof fn lemma_code_texts(c: ErrorCode, d: ErrorCode)
    ensures
        c != d ==> code_name(c) != code_name(d),
        code_name(c).take(2) == "DD"@,
        code_name(c)[2] == 'P' || code_name(c)[2] == 'S' || code_name(c)[2] == 'A' || code_name(c)[2]
            == 'R' || code_name(c)[2] == 'I' || code_name(c)[2] == 'C' || code_name(c)[2] == 'X',
        is_digit_char(code_name(c)[3]) && is_digit_char(code_name(c)[4]) && is_digit_char(
            code_name(c)[5],
        ) && is_digit_char(code_name(c)[6]),
        code_name(c)[7] == '_',
        category_name(c) == category_of_text(code_name(c)),
{
    lemma_code_text_key(c);
    lemma_code_text_key(d);
    reveal_strlit("DD");
    match c {
        ErrorCode::Ddp1001InvalidFrame => {
            reveal_strlit("DDP1001_INVALID_FRAME");
        },
        ErrorCode::Ddp1002UnsupportedVersion => {
            reveal_strlit("DDP1002_UNSUPPORTED_VERSION");
        },
        ErrorCode::Ddp1003UnknownCriticalExtension => {
            reveal_strlit("DDP1003_UNKNOWN_CRITICAL_EXTENSION");
        },
        ErrorCode::Ddp1004UnsupportedHash => {
            reveal_strlit("DDP1004_UNSUPPORTED_HASH");
        },
        ErrorCode::Ddp1005BadIdentifier => {
            reveal_strlit("DDP1005_BAD_IDENTIFIER");
        },
        ErrorCode::Ddp1006LimitExceeded => {
            reveal_strlit("DDP1006_LIMIT_EXCEEDED");
        },
        ErrorCode::Ddp1007Expired => {
            reveal_strlit("DDP1007_EXPIRED");
        },
        ErrorCode::Ddp1008NotRecipient => {
            reveal_strlit("DDP1008_NOT_RECIPIENT");
        },
        ErrorCode::Ddp1009Sealed => {
            reveal_strlit("DDP1009_SEALED");
        },
        ErrorCode::Dds2001StoreFull => {
            reveal_strlit("DDS2001_STORE_FULL");
        },
        ErrorCode::Dds2002CorruptChunk => {
            reveal_strlit("DDS2002_CORRUPT_CHUNK");
        },
        ErrorCode::Dds2003MissingChunk => {
            reveal_strlit("DDS2003_MISSING_CHUNK");
        },
        ErrorCode::Dds2004CorruptMetadata => {
            reveal_strlit("DDS2004_CORRUPT_METADATA");
        },
        ErrorCode::Dda3001AuthFailed => {
            reveal_strlit("DDA3001_AUTH_FAILED");
        },
        ErrorCode::Dda3002Replay => {
            reveal_strlit("DDA3002_REPLAY");
        },
        ErrorCode::Ddr4001RouteUnavailable => {
            reveal_strlit("DDR4001_ROUTE_UNAVAILABLE");
        },
        ErrorCode::Ddr4002ReplicationExhausted => {
            reveal_strlit("DDR4002_REPLICATION_EXHAUSTED");
        },
        ErrorCode::Ddi5001UnknownContact => {
            reveal_strlit("DDI5001_UNKNOWN_CONTACT");
        },
        ErrorCode::Ddc6001Crypto => {
            reveal_strlit("DDC6001_CRYPTO");
        },
        ErrorCode::Ddi7001Io => {
            reveal_strlit("DDI7001_IO");
        },
        ErrorCode::Ddx0000Internal => {
            reveal_strlit("DDX0000_INTERNAL");
        },
    }
    reveal_strlit("protocol");
    reveal_strlit("store");
    reveal_strlit("auth");
    reveal_strlit("routing");
    reveal_strlit("crypto");
    reveal_strlit("internal");
    reveal_strlit("identity");
    reveal_strlit("io");
    assert(code_name(c).take(2) =~= "DD"@);
}

} // verus!
