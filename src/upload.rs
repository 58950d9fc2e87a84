//! What an upload to the coverage service sends, and where.
use vstd::prelude::*;
use vstd::string::*;
use crate::aggregate::{aggregate, line_hits, report_files, FileCoverage, HitRecord};
use crate::config::{texts, Ci, Config};
use crate::path::strip_manifest_dir;
use crate::text::{replace_all, replace_text};

verus! {

/// The credential that the coverage service is given.
pub enum RemoteIdentity {
    /// The repository's own token.
    RepoToken(String),
    /// A job of a continuous-integration service.
    ServiceToken { service: Ci, job_id: String },
}

/// `id` is the identity for the key `key` and the service `ci`: a job of the
/// service, with the key as its id, where a service is set; else the key as
/// the repository's token.
pub open spec fn identity_for(id: RemoteIdentity, key: String, ci: Option<Ci>) -> bool {
    match ci {
        Some(c) => id == RemoteIdentity::ServiceToken { service: c, job_id: key },
        None => id == RemoteIdentity::RepoToken(key),
    }
}

/// An identity is a job of a service exactly when a service is configured,
/// and the repository's token otherwise; the key is kept either way.
pub proof fn lemma_identity_variant(id: RemoteIdentity, key: String, ci: Option<Ci>)
    requires
        identity_for(id, key, ci),
    ensures
        id is ServiceToken <==> ci is Some,
        id is RepoToken <==> ci is None,
        id matches RemoteIdentity::RepoToken(k) ==> k == key,
        id matches RemoteIdentity::ServiceToken { service, job_id } ==> job_id == key && ci
            == Some(service),
{
}

/// The identity to upload under; the configuration must hold a key.
pub fn resolve_identity(config: &Config) -> (r: RemoteIdentity)
    requires
        config.coveralls is Some,
    ensures
        identity_for(r, config.coveralls->0, config.ci_tool),
{
    let key = match &config.coveralls {
        Some(k) => k.clone(),
        None => String::new(),
    };
    match &config.ci_tool {
        Some(service) => RemoteIdentity::ServiceToken { service: service.duplicate(), job_id: key },
        None => RemoteIdentity::RepoToken(key),
    }
}

/// A value to set in the uploaded document, under a path of object keys.
pub struct GitField {
    pub keys: Vec<String>,
    pub value: String,
}

/// The fields of commit and branch metadata to set in the uploaded document:
/// the commit as `git.head.message` and `git.head.id`, the branch as
/// `git.branch`, each only where given.
pub open spec fn git_fields_for(commit: Option<String>, branch: Option<String>) -> Seq<
    (Seq<Seq<char>>, Seq<char>),
> {
    let head = match commit {
        Some(c) => seq![
            (seq!["git"@, "head"@, "message"@], c@),
            (seq!["git"@, "head"@, "id"@], c@),
        ],
        None => Seq::empty(),
    };
    match branch {
        Some(b) => head.push((seq!["git"@, "branch"@], b@)),
        None => head,
    }
}

/// The path and value of each field.
pub open spec fn field_views(v: Seq<GitField>) -> Seq<(Seq<Seq<char>>, Seq<char>)> {
    v.map_values(|g: GitField| (texts(g.keys@), g.value@))
}

fn key_path(a: &str, b: &str, c: Option<&str>) -> (r: Vec<String>)
    ensures
        c is None ==> texts(r@) == seq![a@, b@],
        c matches Some(c) ==> texts(r@) == seq![a@, b@, c@],
{
    let mut v: Vec<String> = Vec::new();
    v.push(a.to_owned());
    v.push(b.to_owned());
    match c {
        Some(c) => {
            v.push(c.to_owned());
            assert(texts(v@) =~= seq![a@, b@, c@]);
        },
        None => {
            assert(texts(v@) =~= seq![a@, b@]);
        },
    }
    v
}

/// The commit and branch fields to set in the uploaded document.
pub fn git_fields(commit: &Option<String>, branch: &Option<String>) -> (r: Vec<GitField>)
    ensures
        field_views(r@) == git_fields_for(*commit, *branch),
{
    let mut v: Vec<GitField> = Vec::new();
    if let Some(c) = commit {
        v.push(GitField { keys: key_path("git", "head", Some("message")), value: c.clone() });
        v.push(GitField { keys: key_path("git", "head", Some("id")), value: c.clone() });
    }
    if let Some(b) = branch {
        v.push(GitField { keys: key_path("git", "branch", None), value: b.clone() });
    }
    assert(field_views(v@) =~= git_fields_for(*commit, *branch));
    v
}

/// How the report travels.
pub enum Transport {
    /// Through the coverage service's own submission.
    Service,
    /// As a form post to `uri`, after the document gets `git`'s fields.
    Endpoint { uri: String, git: Vec<GitField> },
}

/// Everything an upload sends.
pub struct UploadPlan {
    pub identity: RemoteIdentity,
    pub files: Vec<FileCoverage>,
    pub transport: Transport,
}

/// Why no upload can be made.
#[derive(Clone, Copy, Debug, PartialEq, Eq, Structural)]
pub enum ExportError {
    /// No key of the coverage service is configured.
    MissingKey,
}

/// Plans the upload of `coverage_data`: fails exactly when no key is
/// configured; else the identity for the key, the files as `aggregate`
/// groups them, and a form post to the configured endpoint, with the commit
/// and branch fields, or else the service's own submission.
pub fn export(coverage_data: &[HitRecord], config: &Config) -> (r: Result<UploadPlan, ExportError>)
    ensures
        r is Err <==> config.coveralls is None,
        r matches Err(e) ==> e == ExportError::MissingKey,
        r matches Ok(plan) ==> {
            &&& identity_for(plan.identity, config.coveralls->0, config.ci_tool)
            &&& plan.files@.len() == report_files(*config, coverage_data@).len()
            &&& forall|i: int|
                0 <= i < plan.files@.len() ==> {
                    let f = #[trigger] report_files(*config, coverage_data@)[i];
                    &&& plan.files@[i].path@ == f
                    &&& plan.files@[i].relative_path@ == strip_manifest_dir(f, config.manifest@)
                    &&& plan.files@[i].lines@ == line_hits(coverage_data@, f)
                }
            &&& match config.report_uri {
                Some(u) => plan.transport matches Transport::Endpoint { uri, git } && uri == u
                    && field_views(git@) == git_fields_for(config.commit, config.branch_name),
                None => plan.transport is Service,
            }
        },
{
    if config.coveralls.is_none() {
        return Err(ExportError::MissingKey);
    }
    let identity = resolve_identity(config);
    let files = aggregate(coverage_data, config);
    let transport = match &config.report_uri {
        Some(uri) => Transport::Endpoint {
            uri: uri.clone(),
            git: git_fields(&config.commit, &config.branch_name),
        },
        None => Transport::Service,
    };
    Ok(UploadPlan { identity, files, transport })
}

/// The document text as the endpoint expects it: each `"source_digest":` key
/// renamed to `"source":`.
pub fn wire_json(json: &str) -> (r: String)
    ensures
        r@ == replace_all(json@, "\"source_digest\":"@, "\"source\":"@),
{
    replace_text(json, "\"source_digest\":", "\"source\":")
}

/// The address of a build's report: the endpoint `uri` with each
/// `api/v1/jobs` replaced by `builds/` and the build's id.
pub fn report_url(uri: &str, build_id: &str) -> (r: String)
    ensures
        r@ == replace_all(uri@, "api/v1/jobs"@, "builds/"@ + build_id@),
{
    let mut target = String::from_str("builds/");
    target.append(build_id);
    replace_text(uri, "api/v1/jobs", target.as_str())
}

} // verus!
