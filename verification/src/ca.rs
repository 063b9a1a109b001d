//! The certificate authority of the interception: when the stored CA is
//! reused or replaced, the lifetime and serial numbers of the certificates
//! forged for intercepted hosts.
use vstd::prelude::*;
use vstd::string::*;

verus! {

/// The organization named in every certificate that the proxy issues.
pub fn organization() -> (res: &'static str)
    ensures
        res@ == "Rhythm"@,
{
    "Rhythm"
}

/// File holding the CA certificate (DER).
pub fn ca_cert_path() -> (res: &'static str)
    ensures
        res@ == "./ca_cert.der"@,
{
    "./ca_cert.der"
}

/// File holding the CA key (DER).
pub fn ca_key_path() -> (res: &'static str)
    ensures
        res@ == "./ca_key.der"@,
{
    "./ca_key.der"
}

/// The outcome of opening the stored CA certificate.
#[derive(Debug, Clone, Copy, PartialEq, Eq, Structural)]
pub enum CaFile {
    /// The file opened.
    Present,
    /// There is no such file.
    Missing,
    /// Opening failed for another reason.
    Unreadable,
}

/// The first step of setting up the CA.
#[derive(Debug, Clone, Copy, PartialEq, Eq, Structural)]
pub enum CaStart {
    /// Read certificate and key, then check the certificate's validity.
    Load,
    /// Generate a new CA and save it.
    Generate,
    /// Give up with the error of opening the file.
    Fail,
}

/// How the CA is set up after opening its certificate file.
pub open spec fn spec_ca_start(file: CaFile) -> CaStart {
    match file {
        CaFile::Present => CaStart::Load,
        CaFile::Missing => CaStart::Generate,
        CaFile::Unreadable => CaStart::Fail,
    }
}

/// Chooses how the CA is set up from the outcome of opening its certificate.
pub fn ca_start(file: CaFile) -> (res: CaStart)
    ensures
        res == spec_ca_start(file),
{
    match file {
        CaFile::Present => CaStart::Load,
        CaFile::Missing => CaStart::Generate,
        CaFile::Unreadable => CaStart::Fail,
    }
}

/// A certificate whose validity ends at `not_after` is still good at `now`.
pub open spec fn still_valid(not_after: i128, now: i128) -> bool {
    now < not_after
}

/// A loaded CA is used while it has not expired (`not_after` later than
/// `now`, both in nanoseconds of Unix time); otherwise a new one is made.
pub fn ca_still_valid(not_after: i128, now: i128) -> (res: bool)
    ensures
        res == still_valid(not_after, now),
{
    !(not_after <= now)
}

/// The serial number of a forged certificate: the upper half is the upper
/// half of the host name's hash (the same host keeps it), the lower half
/// the lower half of the issue time in seconds (a reissue changes it).
pub fn serial_number(host_hash: u64, unix_secs: i64) -> (res: u64)
    ensures
        res >> 32u64 == host_hash >> 32u64,
        res & 0xffff_ffffu64 == (unix_secs as u64) & 0xffff_ffffu64,
{
    let t: u64 = unix_secs as u64;
    let res: u64 = host_hash & 0xFFFF_FFFF_0000_0000u64 | t & 0x0000_0000_FFFF_FFFFu64;
    assert(res >> 32u64 == host_hash >> 32u64) by (bit_vector)
        requires
            res == host_hash & 0xFFFF_FFFF_0000_0000u64 | t & 0x0000_0000_FFFF_FFFFu64,
    ;
    assert(res & 0xffff_ffffu64 == t & 0xffff_ffffu64) by (bit_vector)
        requires
            res == host_hash & 0xFFFF_FFFF_0000_0000u64 | t & 0x0000_0000_FFFF_FFFFu64,
    ;
    res
}

/// A week in nanoseconds.
pub open spec fn lifetime_nanos() -> int {
    604800_000_000_000int
}

/// A certificate is valid for one week: 7 days of 24 hours of 3600
/// seconds, in nanoseconds; and a certificate is still good exactly
/// before the end of its validity.
pub proof fn lemma_one_week(not_after: i128, now: i128)
    ensures
        lifetime_nanos() == 7 * 24 * 3600 * 1_000_000_000,
        still_valid(not_after, now) <==> now < not_after,
{
}

/// The validity of a certificate issued at `now` (nanoseconds of Unix
/// time): from `now` until one week later.
pub fn validity_window(now: i128) -> (res: (i128, i128))
    requires
        now + lifetime_nanos() <= i128::MAX,
    ensures
        res.0 == now,
        res.1 == now + lifetime_nanos(),
{
    (now, now + 604800_000_000_000i128)
}

/// The end of validity (nanoseconds of Unix time) that rcgen reports for a
/// CA read back from its certificate and key DER, or `None` when either
/// does not parse.
pub uninterp spec fn stored_ca_not_after(cert_der: Seq<u8>, key_der: Seq<u8>) -> Option<i128>;

/// 4096-01-01T00:00:00Z in nanoseconds of Unix time: rcgen's default end of
/// validity.
pub open spec fn rcgen_default_not_after() -> i128 {
    67_090_118_400_000_000_000i128
}

/// Reads a stored CA with rcgen: `KeyPair::try_from` on the key DER, then
/// `CertificateParams::from_ca_cert_der` on the certificate DER, and gives
/// the parameters' `not_after` in nanoseconds. Whether the two parse is
/// named (`stored_ca_not_after`), as a function of the two byte strings.
/// Stated from rcgen 0.10's source: `from_ca_cert_der` extracts only the
/// signature algorithm and the subject and leaves every other parameter at
/// its default, so the `not_after` read back is always the default date.
#[verifier::external_body]
fn read_ca_not_after(cert_der: &[u8], key_der: &[u8]) -> (res: Option<i128>)
    ensures
        res == stored_ca_not_after(cert_der@, key_der@),
        res matches Some(t) ==> t == rcgen_default_not_after(),
{
    let key = rcgen::KeyPair::try_from(key_der).ok()?;
    let params = rcgen::CertificateParams::from_ca_cert_der(cert_der, key).ok()?;
    Some(params.not_after.unix_timestamp_nanos())
}

/// What becomes of a stored CA read back at `now`.
pub open spec fn spec_loaded_ca_plan(cert_der: Seq<u8>, key_der: Seq<u8>, now: i128) -> Option<bool> {
    match stored_ca_not_after(cert_der, key_der) {
        None => None,
        Some(t) => Some(still_valid(t, now)),
    }
}

/// Decides on a stored CA from its certificate and key DER: `None` when
/// they do not parse (the start fails with rcgen's error), `Some(true)` when
/// the CA is still valid at `now` and is reused, `Some(false)` when it has
/// expired and a new one is generated.
pub fn loaded_ca_plan(cert_der: &[u8], key_der: &[u8], now: i128) -> (res: Option<bool>)
    ensures
        res == spec_loaded_ca_plan(cert_der@, key_der@, now),
        match stored_ca_not_after(cert_der@, key_der@) {
            None => res is None,
            Some(t) => res == Some(still_valid(t, now)),
        },
        res matches Some(reused) ==> reused == (now < rcgen_default_not_after()),
{
    match read_ca_not_after(cert_der, key_der) {
        None => None,
        Some(not_after) => Some(ca_still_valid(not_after, now)),
    }
}

/// A CA is generated and saved when its file is missing (any other failure
/// to open it stops the start); once saved, a
/// later start opens the file and loads it, and a stored CA whose validity,
/// as read back, ends no earlier than a week after `issued` is reused at
/// every `now` within that week, and replaced once its validity has ended.
pub proof fn lemma_saved_ca_reused(cert_der: Seq<u8>, key_der: Seq<u8>, not_after: i128, issued: i128, now: i128)
    requires
        stored_ca_not_after(cert_der, key_der) == Some(not_after),
    ensures
        spec_ca_start(CaFile::Missing) == CaStart::Generate,
        spec_ca_start(CaFile::Present) == CaStart::Load,
        spec_ca_start(CaFile::Unreadable) == CaStart::Fail,
        issued <= now < issued + lifetime_nanos() && issued + lifetime_nanos() <= not_after
            ==> spec_loaded_ca_plan(cert_der, key_der, now) == Some(true),
        not_after <= now ==> spec_loaded_ca_plan(cert_der, key_der, now) == Some(false),
{
}

/// The alternative name of a forged certificate.
#[derive(Debug, Clone)]
pub enum AltName {
    /// The host is an IP address.
    Ip(String),
    /// The host is a DNS name.
    Dns(String),
}

/// The names a certificate carries.
#[derive(Debug, Clone)]
pub struct CertNames {
    pub alt_name: AltName,
    pub common_name: String,
    pub organization: String,
}

/// The names a forged certificate for `host` carries: the host as common
/// name and as alternative name (an IP address when `host_is_ip`, which
/// the caller finds by parsing it, else a DNS name), and the organization.
pub fn certificate_names(host: &str, host_is_ip: bool) -> (res: CertNames)
    ensures
        res.common_name@ == host@,
        res.organization@ == "Rhythm"@,
        host_is_ip ==> (res.alt_name matches AltName::Ip(t) && t@ == host@),
        !host_is_ip ==> (res.alt_name matches AltName::Dns(t) && t@ == host@),
{
    let alt_name = if host_is_ip {
        AltName::Ip(String::from_str(host))
    } else {
        AltName::Dns(String::from_str(host))
    };
    CertNames { alt_name, common_name: String::from_str(host), organization: String::from_str(organization()) }
}

} // verus!
