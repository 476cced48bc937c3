//! Version information: the cluster's server version and this service's own version.
use vstd::prelude::*;

verus! {

/// The version that the cluster's API server reports.
#[derive(Debug)]
pub struct ServerVersion {
    pub major: String,
    pub minor: String,
    pub platform: String,
}

/// The cluster version as shown in events: `major.minor`, or `n/a` when it is unknown.
pub fn k8s_version_label(v: Option<&ServerVersion>) -> (r: String)
    ensures
        r@ == match v {
            Some(sv) => sv.major@ + "."@ + sv.minor@,
            None => "n/a"@,
        },
{
    match v {
        Some(sv) => {
            let mut r = sv.major.clone();
            r.append(".");
            r.append(sv.minor.as_str());
            r
        },
        None => String::from_str("n/a"),
    }
}

/// The service's name and version, as the health endpoint reports them.
#[derive(Debug)]
pub struct HCVersion {
    pub app: String,
    pub major: u64,
    pub minor: u64,
    pub patch: u64,
    /// The pre-release part, or the parse error when the version text is not valid.
    pub pre: String,
}

/// How the `semver` crate reads a version text: major, minor, patch and the pre-release
/// text, or the text of its error.
pub uninterp spec fn semver_reading(s: Seq<char>) -> Result<(u64, u64, u64, Seq<char>), Seq<char>>;

/// Relies on `semver::Version::parse`: the numeric parts and the pre-release text of a
/// version, or the text of the parse error.
#[verifier::external_body]
fn parse_semver(s: &str) -> (r: Result<(u64, u64, u64, String), String>)
    ensures
        match r {
            Ok((a, b, c, p)) => semver_reading(s@) == Ok::<(u64, u64, u64, Seq<char>), Seq<char>>((a, b, c, p@)),
            Err(m) => semver_reading(s@) == Err::<(u64, u64, u64, Seq<char>), Seq<char>>(m@),
        },
{
    match semver::Version::parse(s) {
        Ok(v) => Ok((v.major, v.minor, v.patch, v.pre.to_string())),
        Err(e) => Err(e.to_string()),
    }
}

/// The version record for `app_name` from a version reading: its parts, or zeros with the
/// error text in `pre`.
pub fn hc_version(app_name: String, reading: Result<(u64, u64, u64, String), String>) -> (r: HCVersion)
    ensures
        r.app == app_name,
        match reading {
            Ok((a, b, c, p)) => r.major == a && r.minor == b && r.patch == c && r.pre == p,
            Err(m) => r.major == 0 && r.minor == 0 && r.patch == 0 && r.pre == m,
        },
{
    match reading {
        Ok((major, minor, patch, pre)) => HCVersion { app: app_name, major, minor, patch, pre },
        Err(why) => HCVersion { app: app_name, major: 0, minor: 0, patch: 0, pre: why },
    }
}

/// The version record of `app_name` at the version `version_text`.
pub fn get_version(app_name: String, version_text: &str) -> (r: HCVersion)
    ensures
        r.app == app_name,
        match semver_reading(version_text@) {
            Ok((a, b, c, p)) => r.major == a && r.minor == b && r.patch == c && r.pre@ == p,
            Err(m) => r.major == 0 && r.minor == 0 && r.patch == 0 && r.pre@ == m,
        },
{
    hc_version(app_name, parse_semver(version_text))
}

/// The level at which a request is traced.
#[derive(Debug)]
pub enum SpanLevel {
    Debug,
    Info,
}

/// Health probes are traced at debug level, every other request at info level.
pub fn request_span_level(path: &str) -> (r: SpanLevel)
    ensures
        r == (if path@ == "/healthz"@ {
            SpanLevel::Debug
        } else {
            SpanLevel::Info
        }),
{
    if crate::strings::text_eq(path, "/healthz") {
        SpanLevel::Debug
    } else {
        SpanLevel::Info
    }
}

} // verus!
