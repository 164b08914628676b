//! The sources configuration of the fetchers and the verifier: which
//! registries may be reached insecurely, and the extra certificate
//! authorities trusted per host. Certificates must parse as either PEM or
//! DER; reading the YAML file and the certificate files from disk is the
//! embedding program's work, and the raw bytes are validated here.

use vstd::prelude::*;
use crate::text::str_eq;

verus! {

/// Whether a byte string parses as a PEM certificate.
pub uninterp spec fn parses_as_pem(bytes: Seq<u8>) -> bool;

/// Whether a byte string parses as a DER certificate.
pub uninterp spec fn parses_as_der(bytes: Seq<u8>) -> bool;

/// The DER contents wrapped inside a PEM certificate.
pub uninterp spec fn pem_contents(bytes: Seq<u8>) -> Seq<u8>;

/// Relies on x509_parser::pem::parse_x509_pem: whether bytes parse as PEM is
/// a function of the bytes alone.
#[verifier::external_body]
fn pem_parses(bytes: &[u8]) -> (r: bool)
    ensures
        r == parses_as_pem(bytes@),
{
    x509_parser::pem::parse_x509_pem(bytes).is_ok()
}

/// Relies on x509_parser's X509Certificate::from_der: whether bytes parse as
/// a DER certificate is a function of the bytes alone.
#[verifier::external_body]
fn der_parses(bytes: &[u8]) -> (r: bool)
    ensures
        r == parses_as_der(bytes@),
{
    <x509_parser::certificate::X509Certificate as x509_parser::prelude::FromDer<
        x509_parser::error::X509Error,
    >>::from_der(bytes).is_ok()
}

/// Relies on x509_parser::pem::parse_x509_pem: the DER contents of a PEM
/// certificate are a function of the bytes alone.
#[verifier::external_body]
fn pem_decode(bytes: &[u8]) -> (r: Option<Vec<u8>>)
    ensures
        r matches Some(contents) ==> parses_as_pem(bytes@) && contents@ == pem_contents(bytes@),
        r is None ==> !parses_as_pem(bytes@),
{
    match x509_parser::pem::parse_x509_pem(bytes) {
        Ok((_, pem)) => Some(pem.contents),
        Err(_) => None,
    }
}

/// A certificate as configured: raw bytes, not yet validated.
#[derive(Clone, Debug, PartialEq)]
pub struct RawCertificate(pub Vec<u8>);

/// A validated certificate and the encoding it was recognised as.
#[derive(Clone, Debug, PartialEq)]
pub enum Certificate {
    Der(Vec<u8>),
    Pem(Vec<u8>),
}

/// The encoding tag and bytes of a certificate.
pub open spec fn cert_view(c: Certificate) -> (bool, Seq<u8>) {
    match c {
        Certificate::Pem(b) => (true, b@),
        Certificate::Der(b) => (false, b@),
    }
}

/// How raw bytes classify: PEM wins, then DER, else nothing.
pub open spec fn spec_certificate_of(b: Seq<u8>) -> Option<(bool, Seq<u8>)> {
    if parses_as_pem(b) {
        Some((true, b))
    } else if parses_as_der(b) {
        Some((false, b))
    } else {
        None
    }
}

/// Why a sources configuration was refused.
#[derive(Clone, Debug, PartialEq)]
pub enum SourceError {
    /// The bytes are neither a PEM nor a DER certificate.
    InvalidCertificateError(String),
}

impl Certificate {
    /// Validate raw certificate bytes: a PEM certificate, a DER certificate,
    /// or an error.
    pub fn try_from_raw(raw: RawCertificate) -> (r: Result<Certificate, SourceError>)
        ensures
            match r {
                Ok(cert) => spec_certificate_of(raw.0@) == Some(cert_view(cert)),
                Err(e) => spec_certificate_of(raw.0@) is None && (e matches
                    SourceError::InvalidCertificateError(m) && m@
                    == "Raw certificate is not in PEM nor in DER encoding"@),
            },
    {
        let cert_data = raw.0;
        if pem_parses(cert_data.as_slice()) {
            Ok(Certificate::Pem(cert_data))
        } else if der_parses(cert_data.as_slice()) {
            Ok(Certificate::Der(cert_data))
        } else {
            Err(SourceError::InvalidCertificateError(
                "Raw certificate is not in PEM nor in DER encoding".to_owned(),
            ))
        }
    }

    /// The certificate as DER bytes: DER ones as they are, PEM ones decoded.
    pub fn der_bytes(&self) -> (r: Result<Vec<u8>, &'static str>)
        ensures
            match r {
                Ok(b) => match *self {
                    Certificate::Der(ref d) => b@ == d@,
                    Certificate::Pem(ref p) => b@ == pem_contents(p@),
                },
                Err(m) => self matches Certificate::Pem(p) && !parses_as_pem(p@) && m@
                    == "Failed to parse PEM data"@,
            },
    {
        match self {
            Certificate::Der(data) => Ok(crate::text::copy_bytes(data)),
            Certificate::Pem(data) => match pem_decode(data.as_slice()) {
                Some(contents) => Ok(contents),
                None => Err("Failed to parse PEM data"),
            },
        }
    }
}

/// The trusted certificate authorities, per host.
#[derive(Clone, Debug, Default)]
pub struct SourceAuthorities(pub Vec<(String, Vec<Certificate>)>);

/// The certificates configured for a host, if any.
pub open spec fn find_authority(
    entries: Seq<(String, Vec<Certificate>)>,
    host: Seq<char>,
) -> Option<Vec<Certificate>>
    decreases entries.len(),
{
    if entries.len() == 0 {
        None
    } else if entries[0].0@ == host {
        Some(entries[0].1)
    } else {
        find_authority(entries.drop_first(), host)
    }
}

/// Some configured certificate classifies as neither PEM nor DER.
pub open spec fn spec_any_invalid_certificate(raw: Seq<(String, Vec<RawCertificate>)>) -> bool {
    exists|i: int, j: int|
        0 <= i < raw.len() && 0 <= j < raw[i].1@.len() && spec_certificate_of(
            (#[trigger] raw[i].1@[j]).0@,
        ) is None
}

impl SourceAuthorities {
    /// Validate a whole raw authority map: it converts exactly when every
    /// raw certificate of every host classifies as PEM or DER, in
    /// configuration order; one invalid certificate fails the whole map.
    pub fn from_raw(raw: Vec<(String, Vec<RawCertificate>)>) -> (r: Result<
        SourceAuthorities,
        SourceError,
    >)
        ensures
            r matches Ok(sa) ==> sa.0@.len() == raw@.len() && (forall|i: int|
                0 <= i < raw@.len() ==> (#[trigger] sa.0@[i]).0@ == raw@[i].0@ && sa.0@[i].1@.len()
                    == raw@[i].1@.len() && (forall|j: int|
                    0 <= j < raw@[i].1@.len() ==> spec_certificate_of(raw@[i].1@[j].0@) == Some(
                        cert_view(#[trigger] sa.0@[i].1@[j]),
                    ))),
            r is Err <==> spec_any_invalid_certificate(raw@),
            r matches Err(e) ==> (e matches SourceError::InvalidCertificateError(m) && m@
                == "Raw certificate is not in PEM nor in DER encoding"@),
    {
        let mut sa: Vec<(String, Vec<Certificate>)> = Vec::new();
        let n = raw.len();
        let mut i: usize = 0;
        while i < n
            invariant
                i <= n,
                n == raw@.len(),
                sa@.len() == i,
                forall|k: int|
                    0 <= k < i ==> (#[trigger] sa@[k]).0@ == raw@[k].0@ && sa@[k].1@.len()
                        == raw@[k].1@.len() && (forall|j: int|
                        0 <= j < raw@[k].1@.len() ==> spec_certificate_of(raw@[k].1@[j].0@)
                            == Some(cert_view(#[trigger] sa@[k].1@[j]))),
            decreases n - i,
        {
            let host = raw[i].0.clone();
            let mut certs: Vec<Certificate> = Vec::new();
            let m = raw[i].1.len();
            let mut j: usize = 0;
            while j < m
                invariant
                    j <= m,
                    0 <= i < raw@.len(),
                    m == raw@[i as int].1@.len(),
                    certs@.len() == j,
                    forall|k: int|
                        0 <= k < j ==> spec_certificate_of(raw@[i as int].1@[k].0@) == Some(
                            cert_view(#[trigger] certs@[k]),
                        ),
                decreases m - j,
            {
                let raw_cert = RawCertificate(crate::text::copy_bytes(&raw[i].1[j].0));
                let cert = match Certificate::try_from_raw(raw_cert) {
                    Ok(cert) => cert,
                    Err(e) => {
                        proof {
                            assert((i as int) < raw@.len() && (j as int)
                                < raw@[i as int].1@.len() && spec_certificate_of(
                                raw@[i as int].1@[j as int].0@,
                            ) is None);
                        }
                        return Err(e);
                    },
                };
                certs.push(cert);
                j += 1;
            }
            sa.push((host, certs));
            i += 1;
        }
        proof {
            assert(!spec_any_invalid_certificate(raw@)) by {
                if spec_any_invalid_certificate(raw@) {
                    let (i0, j0): (int, int) = choose|i0: int, j0: int|
                        0 <= i0 < raw@.len() && 0 <= j0 < raw@[i0].1@.len()
                            && spec_certificate_of((#[trigger] raw@[i0].1@[j0]).0@) is None;
                    assert(spec_certificate_of(raw@[i0].1@[j0].0@) == Some(
                        cert_view(sa@[i0].1@[j0]),
                    ));
                }
            }
        }
        Ok(SourceAuthorities(sa))
    }
}

/// The sources configuration: hosts that may be reached without TLS
/// verification, and the extra authorities trusted per host.
#[derive(Clone, Debug, Default)]
pub struct Sources {
    pub insecure_sources: Vec<String>,
    pub source_authorities: SourceAuthorities,
}

/// Whether a host is listed among the insecure sources.
pub open spec fn spec_is_insecure(sources: Sources, host: Seq<char>) -> bool {
    exists|i: int|
        0 <= i < sources.insecure_sources@.len() && (#[trigger] sources.insecure_sources@[i])@
            == host
}

impl Sources {
    /// Whether this host may be contacted insecurely.
    pub fn is_insecure_source(&self, host: &str) -> (r: bool)
        ensures
            r == spec_is_insecure(*self, host@),
    {
        let n = self.insecure_sources.len();
        let mut i: usize = 0;
        while i < n
            invariant
                i <= n,
                n == self.insecure_sources@.len(),
                forall|k: int| 0 <= k < i ==> (#[trigger] self.insecure_sources@[k])@ != host@,
            decreases n - i,
        {
            if str_eq(self.insecure_sources[i].as_str(), host) {
                return true;
            }
            i += 1;
        }
        false
    }

    /// The certificate authorities configured for a host.
    pub fn source_authority(&self, host: &str) -> (r: Option<&Vec<Certificate>>)
        ensures
            match r {
                Some(certs) => find_authority(self.source_authorities.0@, host@) == Some(*certs),
                None => find_authority(self.source_authorities.0@, host@) is None,
            },
    {
        let n = self.source_authorities.0.len();
        let mut i: usize = 0;
        proof {
            assert(self.source_authorities.0@.skip(0) =~= self.source_authorities.0@);
        }
        while i < n
            invariant
                i <= n,
                n == self.source_authorities.0@.len(),
                find_authority(self.source_authorities.0@, host@) == find_authority(
                    self.source_authorities.0@.skip(i as int),
                    host@,
                ),
            decreases n - i,
        {
            proof {
                assert(self.source_authorities.0@.skip(i as int)[0] == self.source_authorities.0@[i as int]);
            }
            if str_eq(self.source_authorities.0[i].0.as_str(), host) {
                return Some(&self.source_authorities.0[i].1);
            }
            proof {
                assert(self.source_authorities.0@.skip(i as int).drop_first()
                    =~= self.source_authorities.0@.skip(i as int + 1));
            }
            i += 1;
        }
        None
    }
}

/// The client protocol a registry client is configured with: plain HTTPS, or
/// HTTPS with the listed hosts excepted.
#[derive(Clone, Debug, PartialEq)]
pub enum ClientProtocolChoice {
    Https,
    HttpsExcept(Vec<String>),
}

/// The protocol for a sources configuration: every insecure host is
/// excepted; with none, plain HTTPS.
pub fn client_protocol(sources: &Sources) -> (r: ClientProtocolChoice)
    ensures
        sources.insecure_sources@.len() == 0 ==> r == ClientProtocolChoice::Https,
        sources.insecure_sources@.len() > 0 ==> (r matches ClientProtocolChoice::HttpsExcept(v)
            && v@.len() == sources.insecure_sources@.len() && (forall|i: int|
            0 <= i < v@.len() ==> (#[trigger] v@[i])@ == sources.insecure_sources@[i]@)),
{
    if sources.insecure_sources.len() == 0 {
        return ClientProtocolChoice::Https;
    }
    let mut insecure: Vec<String> = Vec::new();
    let n = sources.insecure_sources.len();
    let mut i: usize = 0;
    while i < n
        invariant
            i <= n,
            n == sources.insecure_sources@.len(),
            insecure@.len() == i,
            forall|k: int|
                0 <= k < i ==> (#[trigger] insecure@[k])@ == sources.insecure_sources@[k]@,
        decreases n - i,
    {
        insecure.push(sources.insecure_sources[i].clone());
        i += 1;
    }
    ClientProtocolChoice::HttpsExcept(insecure)
}

/// All configured authorities, flattened in configuration order.
pub open spec fn spec_flatten_certs(entries: Seq<(String, Vec<Certificate>)>) -> Seq<Certificate>
    decreases entries.len(),
{
    if entries.len() == 0 {
        Seq::empty()
    } else {
        spec_flatten_certs(entries.drop_last()) + entries.last().1@
    }
}

/// The extra root certificates a registry client is configured with: every
/// authority of every host, in configuration order.
pub fn extra_root_certificates(sources: &Sources) -> (r: Vec<Certificate>)
    ensures
        r@.len() == spec_flatten_certs(sources.source_authorities.0@).len(),
        forall|i: int|
            0 <= i < r@.len() ==> cert_view(#[trigger] r@[i]) == cert_view(
                spec_flatten_certs(sources.source_authorities.0@)[i],
            ),
{
    let mut out: Vec<Certificate> = Vec::new();
    let entries = &sources.source_authorities.0;
    let n = entries.len();
    let mut i: usize = 0;
    while i < n
        invariant
            i <= n,
            n == entries@.len(),
            *entries == sources.source_authorities.0,
            out@.len() == spec_flatten_certs(entries@.take(i as int)).len(),
            forall|k: int|
                0 <= k < out@.len() ==> cert_view(#[trigger] out@[k]) == cert_view(
                    spec_flatten_certs(entries@.take(i as int))[k],
                ),
        decreases n - i,
    {
        proof {
            assert(entries@.take(i as int + 1).drop_last() =~= entries@.take(i as int));
            assert(entries@.take(i as int + 1).last() == entries@[i as int]);
        }
        let certs = &entries[i].1;
        let m = certs.len();
        let mut j: usize = 0;
        while j < m
            invariant
                0 <= i < entries@.len(),
                j <= m,
                m == certs@.len(),
                *certs == entries@[i as int].1,
                *entries == sources.source_authorities.0,
                out@.len() == spec_flatten_certs(entries@.take(i as int)).len() + j,
                forall|k: int|
                    0 <= k < spec_flatten_certs(entries@.take(i as int)).len() ==> cert_view(
                        #[trigger] out@[k],
                    ) == cert_view(spec_flatten_certs(entries@.take(i as int))[k]),
                forall|k: int|
                    0 <= k < j ==> cert_view(
                        #[trigger] out@[spec_flatten_certs(entries@.take(i as int)).len() + k],
                    ) == cert_view(certs@[k]),
            decreases m - j,
        {
            out.push(clone_certificate(&certs[j]));
            j += 1;
        }
        proof {
            let flat_i = spec_flatten_certs(entries@.take(i as int));
            let flat_next = spec_flatten_certs(entries@.take(i as int + 1));
            assert(entries@.take(i as int + 1).drop_last() =~= entries@.take(i as int));
            assert(flat_next =~= flat_i + entries@[i as int].1@);
            assert forall|k: int| 0 <= k < out@.len() implies cert_view(#[trigger] out@[k])
                == cert_view(flat_next[k]) by {
                if k < flat_i.len() {
                    assert(flat_next[k] == flat_i[k]);
                } else {
                    let k2 = k - flat_i.len();
                    assert(cert_view(out@[flat_i.len() + k2]) == cert_view(certs@[k2]));
                    assert(flat_next[k] == entries@[i as int].1@[k2]);
                }
            }
        }
        i += 1;
    }
    proof {
        assert(entries@.take(n as int) =~= entries@);
    }
    out
}

/// Copy one certificate; conversions to client configurations take copies.
pub fn clone_certificate(c: &Certificate) -> (r: Certificate)
    ensures
        cert_view(r) == cert_view(*c),
{
    match c {
        Certificate::Der(b) => Certificate::Der(crate::text::copy_bytes(b)),
        Certificate::Pem(b) => Certificate::Pem(crate::text::copy_bytes(b)),
    }
}

} // verus!
