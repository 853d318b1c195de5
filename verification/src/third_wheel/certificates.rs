use vstd::prelude::*;

verus! {

/// The text of each string of a run, in their order.
pub open spec fn texts(names: Seq<String>) -> Seq<Seq<char>> {
    names.map_values(|n: String| n@)
}

/// The mathematical value of what is read of a certificate.
pub struct CertificateValue {
    pub subject: Seq<u8>,
    pub subject_alt_names: Seq<Seq<char>>,
    pub not_before: i64,
    pub not_after: i64,
}

impl CertificateValue {
    /// Whether the certificate is within its validity window at the instant
    /// `at`, in seconds of the epoch.
    pub open spec fn valid_at(self, at: int) -> bool {
        self.not_before <= at <= self.not_after
    }

    /// Whether the certificate names `host` among its alternative names.
    pub open spec fn names(self, host: Seq<char>) -> bool {
        self.subject_alt_names.contains(host)
    }
}

/// What the proxy reads of an X.509 certificate: the encoded subject name, of
/// which the common name is a part, the DNS names among the subject's
/// alternative names, and the validity window in seconds of the epoch.
#[derive(Debug, Clone, PartialEq, Eq)]
pub struct CertificateFields {
    pub subject: Vec<u8>,
    pub subject_alt_names: Vec<String>,
    pub not_before: i64,
    pub not_after: i64,
}

impl View for CertificateFields {
    type V = CertificateValue;

    open spec fn view(&self) -> CertificateValue {
        CertificateValue {
            subject: self.subject@,
            subject_alt_names: texts(self.subject_alt_names@),
            not_before: self.not_before,
            not_after: self.not_after,
        }
    }
}

/// The root certificate under which leaves are minted, and its signing key.
///
/// The key is held as the bytes that were loaded and is handed to nothing but
/// the signer.
#[derive(Debug, Clone, PartialEq, Eq)]
pub struct CertificateAuthority {
    certificate: CertificateFields,
    key: Vec<u8>,
}

impl CertificateAuthority {
    /// What is read of the root certificate.
    pub closed spec fn certificate(&self) -> CertificateValue {
        self.certificate@
    }

    /// The bytes of the signing key.
    pub closed spec fn key(&self) -> Seq<u8> {
        self.key@
    }

    /// An authority with the given root certificate and signing key.
    pub fn new(certificate: CertificateFields, key: Vec<u8>) -> (ca: Self)
        ensures
            ca.certificate() == certificate@,
            ca.key() == key@,
    {
        CertificateAuthority { certificate, key }
    }

    /// What is read of the root certificate.
    pub fn root(&self) -> (fields: &CertificateFields)
        ensures
            fields@ == self.certificate(),
    {
        &self.certificate
    }

    /// The bytes of the signing key, for the signer.
    pub fn signing_key(&self) -> (key: &Vec<u8>)
        ensures
            key@ == self.key(),
    {
        &self.key
    }
}

/// The mathematical value of a leaf that is to be signed.
pub struct LeafValue {
    pub certificate: CertificateValue,
    pub issuer: Seq<u8>,
}

/// A leaf certificate before it is signed: the fields it will carry and the
/// name of the authority that issues it.
#[derive(Debug, Clone, PartialEq, Eq)]
pub struct LeafCertificate {
    pub certificate: CertificateFields,
    pub issuer: Vec<u8>,
}

impl View for LeafCertificate {
    type V = LeafValue;

    open spec fn view(&self) -> LeafValue {
        LeafValue { certificate: self.certificate@, issuer: self.issuer@ }
    }
}

/// The later of two instants.
pub open spec fn later(a: i64, b: i64) -> i64 {
    if a < b {
        b
    } else {
        a
    }
}

/// The earlier of two instants.
pub open spec fn earlier(a: i64, b: i64) -> i64 {
    if a < b {
        a
    } else {
        b
    }
}

/// The leaf that impersonates an origin: the origin's subject and alternative
/// names, the part of the origin's validity window that lies within the
/// authority's, and the authority's subject as issuer.
pub open spec fn spoofed(upstream: CertificateValue, ca: CertificateValue) -> LeafValue {
    LeafValue {
        certificate: CertificateValue {
            subject: upstream.subject,
            subject_alt_names: upstream.subject_alt_names,
            not_before: later(upstream.not_before, ca.not_before),
            not_after: earlier(upstream.not_after, ca.not_after),
        },
        issuer: ca.subject,
    }
}

/// A copy of a run of names.
pub fn copy_names(names: &Vec<String>) -> (copy: Vec<String>)
    ensures
        texts(copy@) == texts(names@),
{
    let mut copy: Vec<String> = Vec::new();
    let mut i: usize = 0;
    while i < names.len()
        invariant
            i <= names.len(),
            copy@.len() == i,
            forall|k: int| 0 <= k < i ==> copy@[k]@ == names@[k]@,
        decreases names.len() - i,
    {
        copy.push(names[i].clone());
        i = i + 1;
    }
    assert(texts(copy@) =~= texts(names@));
    copy
}

/// Plans the leaf that the proxy presents to a client in place of the
/// origin's certificate.
pub fn spoof_certificate(upstream: &CertificateFields, ca: &CertificateAuthority) -> (leaf:
    LeafCertificate)
    ensures
        leaf@ == spoofed(upstream@, ca.certificate()),
{
    let root = ca.root();
    let not_before = if upstream.not_before < root.not_before {
        root.not_before
    } else {
        upstream.not_before
    };
    let not_after = if upstream.not_after < root.not_after {
        upstream.not_after
    } else {
        root.not_after
    };
    let subject = upstream.subject.clone();
    let issuer = root.subject.clone();
    assert(subject@ =~= upstream.subject@);
    assert(issuer@ =~= root.subject@);
    LeafCertificate {
        certificate: CertificateFields {
            subject,
            subject_alt_names: copy_names(&upstream.subject_alt_names),
            not_before,
            not_after,
        },
        issuer,
    }
}

/// The spoofed leaf is faithful to the origin: it names every host that the
/// origin's certificate names, so the requested host is among its names
/// whenever it was among the origin's; it carries the origin's subject; and it
/// is issued by the authority.
pub proof fn lemma_leaf_fidelity(upstream: CertificateValue, ca: CertificateValue, host: Seq<char>)
    ensures
        upstream.names(host) ==> spoofed(upstream, ca).certificate.names(host),
        spoofed(upstream, ca).certificate.subject_alt_names == upstream.subject_alt_names,
        spoofed(upstream, ca).certificate.subject == upstream.subject,
        spoofed(upstream, ca).issuer == ca.subject,
{
}

/// The spoofed leaf is valid only while both the origin's certificate and the
/// authority's are, and at every such instant.
pub proof fn lemma_leaf_window(upstream: CertificateValue, ca: CertificateValue, at: int)
    ensures
        spoofed(upstream, ca).certificate.valid_at(at) <==> upstream.valid_at(at) && ca.valid_at(
            at,
        ),
{
}

} // verus!
