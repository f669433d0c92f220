use vstd::prelude::*;
use vstd::utf8::decode_utf8;
use vstd::utf8::valid_utf8;

use crate::primitives::utf8_decode;
use crate::text::chars_equal;
use crate::text::chars_of;

verus! {

/// The kind of operation a signing request performs, derived from the request payload.
#[derive(Debug, Clone, Copy, PartialEq, Eq, Structural)]
pub enum OperationKind {
    SshAuthentication,
    GitSigning,
    FileSigning,
    SshSignature,
}

/// The wire name of each operation kind.
pub open spec fn operation_kind_name(k: OperationKind) -> Seq<char> {
    match k {
        OperationKind::SshAuthentication => "ssh_authentication"@,
        OperationKind::GitSigning => "git_signing"@,
        OperationKind::FileSigning => "file_signing"@,
        OperationKind::SshSignature => "ssh_signature"@,
    }
}

impl OperationKind {
    pub fn as_str(self) -> (s: &'static str)
        ensures
            s@ == operation_kind_name(self),
    {
        match self {
            OperationKind::SshAuthentication => "ssh_authentication",
            OperationKind::GitSigning => "git_signing",
            OperationKind::FileSigning => "file_signing",
            OperationKind::SshSignature => "ssh_signature",
        }
    }
}

/// An SSHSIG signing request (git or file signing): only its namespace matters here.
#[derive(Debug)]
pub struct SshSigRequest {
    pub namespace: String,
}

/// A plain SSH authentication signing request.
#[derive(Debug)]
pub struct SignRequest {}

/// What a signing payload asks for.
#[derive(Debug)]
pub enum SshAgentSignRequest {
    SshSigRequest(SshSigRequest),
    SignRequest(SignRequest),
}

/// Why a signing payload was rejected.
#[derive(Debug, Clone, Copy, PartialEq, Eq, Structural)]
pub enum RequestError {
    /// The payload starts with the SSHSIG magic but has no 4-byte version.
    TruncatedVersion,
    /// The SSHSIG namespace is not valid UTF-8.
    InvalidNamespace,
}

impl RequestError {
    /// The error's text, as the agent logs it.
    pub fn message(&self) -> (s: &'static str)
        ensures
            s@ == match *self {
                RequestError::TruncatedVersion => "Truncated SSHSIG request: missing version"@,
                RequestError::InvalidNamespace => "Invalid namespace"@,
            },
    {
        match self {
            RequestError::TruncatedVersion => "Truncated SSHSIG request: missing version",
            RequestError::InvalidNamespace => "Invalid namespace",
        }
    }
}

/// The operation kind a namespace selects.
pub open spec fn kind_of_namespace(ns: Seq<char>) -> OperationKind {
    if ns == "git"@ {
        OperationKind::GitSigning
    } else if ns == "file"@ {
        OperationKind::FileSigning
    } else if ns == "ssh"@ {
        OperationKind::SshAuthentication
    } else {
        OperationKind::SshSignature
    }
}

/// The operation kind of a namespace.
pub fn operation_kind_from_namespace(namespace: &str) -> (k: OperationKind)
    ensures
        k == kind_of_namespace(namespace@),
{
    let ns = chars_of(namespace);
    let git = chars_of("git");
    let file = chars_of("file");
    let ssh = chars_of("ssh");
    if chars_equal(ns.as_slice(), git.as_slice()) {
        OperationKind::GitSigning
    } else if chars_equal(ns.as_slice(), file.as_slice()) {
        OperationKind::FileSigning
    } else if chars_equal(ns.as_slice(), ssh.as_slice()) {
        OperationKind::SshAuthentication
    } else {
        OperationKind::SshSignature
    }
}

impl SshAgentSignRequest {
    /// The operation kind of a request: plain requests authenticate, SSHSIG requests
    /// go by their namespace.
    pub fn operation_kind(&self) -> (k: OperationKind)
        ensures
            k == match self {
                SshAgentSignRequest::SignRequest(_) => OperationKind::SshAuthentication,
                SshAgentSignRequest::SshSigRequest(r) => kind_of_namespace(r.namespace@),
            },
    {
        match self {
            SshAgentSignRequest::SignRequest(_) => OperationKind::SshAuthentication,
            SshAgentSignRequest::SshSigRequest(req) => operation_kind_from_namespace(
                req.namespace.as_str(),
            ),
        }
    }
}

/// The six bytes `SSHSIG`.
pub open spec fn sshsig_magic() -> Seq<u8> {
    seq![0x53u8, 0x53u8, 0x48u8, 0x53u8, 0x49u8, 0x47u8]
}

/// The bytes before the first zero byte (all of them when there is none).
pub open spec fn until_zero(s: Seq<u8>) -> Seq<u8>
    decreases s.len(),
{
    if s.len() == 0 || s[0] == 0 {
        Seq::empty()
    } else {
        seq![s[0]] + until_zero(s.drop_first())
    }
}

/// How a payload is classified: `None` for a plain request, `Some(Ok(ns))` for an SSHSIG
/// request with namespace `ns`, `Some(Err(e))` for a rejected SSHSIG blob.
pub open spec fn classify(data: Seq<u8>) -> Option<Result<Seq<char>, RequestError>> {
    if data.len() < 6 || data.take(6) != sshsig_magic() {
        None
    } else if data.len() < 10 {
        Some(Err(RequestError::TruncatedVersion))
    } else {
        let ns = until_zero(data.skip(10));
        if valid_utf8(ns) {
            Some(Ok(decode_utf8(ns)))
        } else {
            Some(Err(RequestError::InvalidNamespace))
        }
    }
}

/// The classification of a parse result.
pub open spec fn classify_result(r: Result<SshAgentSignRequest, RequestError>) -> Option<
    Result<Seq<char>, RequestError>,
> {
    match r {
        Ok(SshAgentSignRequest::SignRequest(_)) => None,
        Ok(SshAgentSignRequest::SshSigRequest(q)) => Some(Ok(q.namespace@)),
        Err(e) => Some(Err(e)),
    }
}

/// Classify a signing payload. A payload shorter than the SSHSIG magic, or not starting
/// with it, is a plain request; an SSHSIG blob needs a 4-byte version, and its namespace
/// is the UTF-8 text up to the first zero byte after the version.
pub fn parse_request(data: &[u8]) -> (r: Result<SshAgentSignRequest, RequestError>)
    ensures
        classify_result(r) == classify(data@),
{
    if data.len() < 6 {
        return Ok(SshAgentSignRequest::SignRequest(SignRequest {}));
    }
    let magic: [u8; 6] = [0x53, 0x53, 0x48, 0x53, 0x49, 0x47];
    let mut i: usize = 0;
    while i < 6
        invariant
            6 <= data.len(),
            i <= 6,
            magic@ == sshsig_magic(),
            forall|j: int| 0 <= j < i ==> data@[j] == sshsig_magic()[j],
        decreases 6 - i,
    {
        if data[i] != magic[i] {
            assert(data@.take(6)[i as int] != sshsig_magic()[i as int]);
            return Ok(SshAgentSignRequest::SignRequest(SignRequest {}));
        }
        i += 1;
    }
    assert(data@.take(6) =~= sshsig_magic());
    if data.len() < 10 {
        return Err(RequestError::TruncatedVersion);
    }
    let mut ns: Vec<u8> = Vec::new();
    let mut k: usize = 10;
    assert(data@.skip(10) =~= data@.skip(10).skip(0));
    while k < data.len() && data[k] != 0
        invariant
            10 <= k <= data.len(),
            until_zero(data@.skip(10)) == ns@ + until_zero(data@.skip(k as int)),
        decreases data.len() - k,
    {
        assert(data@.skip(k as int).drop_first() =~= data@.skip(k + 1));
        assert(data@.skip(k as int)[0] == data@[k as int]);
        ns.push(data[k]);
        k += 1;
    }
    assert(until_zero(data@.skip(k as int)) =~= Seq::<u8>::empty());
    assert(ns@ =~= until_zero(data@.skip(10)));
    match utf8_decode(ns) {
        Some(namespace) => Ok(SshAgentSignRequest::SshSigRequest(SshSigRequest { namespace })),
        None => Err(RequestError::InvalidNamespace),
    }
}

/// Law: the SSHSIG namespace decides the operation: `git` is git signing, `file` is
/// file signing, `ssh` is SSH authentication, and every other namespace is a generic SSH
/// signature.
pub proof fn law_namespace_kinds(ns: Seq<char>)
    ensures
        (kind_of_namespace(ns) == OperationKind::GitSigning) == (ns == seq!['g', 'i', 't']),
        (kind_of_namespace(ns) == OperationKind::FileSigning) == (ns == seq!['f', 'i', 'l', 'e']),
        (kind_of_namespace(ns) == OperationKind::SshAuthentication) == (ns == seq!['s', 's', 'h']),
        (kind_of_namespace(ns) == OperationKind::SshSignature) == (ns != seq!['g', 'i', 't'] && ns != seq![
            'f',
            'i',
            'l',
            'e',
        ] && ns != seq!['s', 's', 'h']),
{
    reveal_strlit("git");
    reveal_strlit("file");
    reveal_strlit("ssh");
    assert("git"@ =~= seq!['g', 'i', 't']);
    assert("file"@ =~= seq!['f', 'i', 'l', 'e']);
    assert("ssh"@ =~= seq!['s', 's', 'h']);
}

} // verus!
