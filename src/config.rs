//! The run's configuration, built once from resolved command-line values.
use vstd::prelude::*;
use vstd::string::*;
use crate::filter::{accepted_glob, compiles, glob_regex, regex_search, Matcher};
use crate::path::{join_path, parent_of, push_path, strip_manifest, strip_manifest_dir, stripped_of};
use crate::text::same_text;

verus! {

/// Continuous-integration service that a run reports for.
pub enum Ci {
    Travis,
    TravisPro,
    Circle,
    Semaphore,
    Jenkins,
    Codeship,
    /// Any other service, by the name given.
    Other(String),
}

/// `c` is the service that the name `s` selects: one of the known names, or
/// any other name kept as it was given.
pub open spec fn ci_named(c: Ci, s: Seq<char>) -> bool {
    if s == "travis-ci"@ {
        c is Travis
    } else if s == "travis-pro"@ {
        c is TravisPro
    } else if s == "circle-ci"@ {
        c is Circle
    } else if s == "semaphore"@ {
        c is Semaphore
    } else if s == "jenkins"@ {
        c is Jenkins
    } else if s == "codeship"@ {
        c is Codeship
    } else {
        c matches Ci::Other(n) && n@ == s
    }
}

impl Ci {
    /// The service that `s` names; never fails.
    pub fn from_str(s: &str) -> (r: Ci)
        ensures
            ci_named(r, s@),
    {
        if same_text(s, "travis-ci") {
            Ci::Travis
        } else if same_text(s, "travis-pro") {
            Ci::TravisPro
        } else if same_text(s, "circle-ci") {
            Ci::Circle
        } else if same_text(s, "semaphore") {
            Ci::Semaphore
        } else if same_text(s, "jenkins") {
            Ci::Jenkins
        } else if same_text(s, "codeship") {
            Ci::Codeship
        } else {
            Ci::Other(s.to_owned())
        }
    }

    /// A copy of the service.
    pub fn duplicate(&self) -> (r: Ci)
        ensures
            r == *self,
    {
        match self {
            Ci::Travis => Ci::Travis,
            Ci::TravisPro => Ci::TravisPro,
            Ci::Circle => Ci::Circle,
            Ci::Semaphore => Ci::Semaphore,
            Ci::Jenkins => Ci::Jenkins,
            Ci::Codeship => Ci::Codeship,
            Ci::Other(s) => Ci::Other(s.clone()),
        }
    }
}

/// Kind of report to write locally.
#[derive(Clone, Copy, Debug, PartialEq, Eq, Structural)]
pub enum OutputFile {
    Json,
    Toml,
    Stdout,
    Xml,
    Html,
}

/// `s` spells the word `lower` with each letter in either case, `upper`
/// giving the word in upper case.
pub open spec fn spelled_as(s: Seq<char>, lower: Seq<char>, upper: Seq<char>) -> bool {
    &&& s.len() == lower.len()
    &&& lower.len() == upper.len()
    &&& forall|i: int| 0 <= i < s.len() ==> s[i] == lower[i] || s[i] == upper[i]
}

/// The report kind that `s` names, letters in either case.
pub open spec fn output_named(s: Seq<char>) -> Option<OutputFile> {
    if spelled_as(s, "json"@, "JSON"@) {
        Some(OutputFile::Json)
    } else if spelled_as(s, "toml"@, "TOML"@) {
        Some(OutputFile::Toml)
    } else if spelled_as(s, "stdout"@, "STDOUT"@) {
        Some(OutputFile::Stdout)
    } else if spelled_as(s, "xml"@, "XML"@) {
        Some(OutputFile::Xml)
    } else if spelled_as(s, "html"@, "HTML"@) {
        Some(OutputFile::Html)
    } else {
        None
    }
}

fn spelled(s: &str, lower: &str, upper: &str) -> (r: bool)
    ensures
        r == spelled_as(s@, lower@, upper@),
{
    let n = s.unicode_len();
    if n != lower.unicode_len() || n != upper.unicode_len() {
        return false;
    }
    let mut i: usize = 0;
    while i < n
        invariant
            n == s@.len(),
            n == lower@.len(),
            n == upper@.len(),
            i <= n,
            forall|j: int| 0 <= j < i ==> s@[j] == lower@[j] || s@[j] == upper@[j],
        decreases n - i,
    {
        let c = s.get_char(i);
        if c != lower.get_char(i) && c != upper.get_char(i) {
            return false;
        }
        i = i + 1;
    }
    true
}

impl OutputFile {
    /// The report kind that `s` names, letters in either case.
    pub fn from_name(s: &str) -> (r: Option<OutputFile>)
        ensures
            r == output_named(s@),
    {
        if spelled(s, "json", "JSON") {
            Some(OutputFile::Json)
        } else if spelled(s, "toml", "TOML") {
            Some(OutputFile::Toml)
        } else if spelled(s, "stdout", "STDOUT") {
            Some(OutputFile::Stdout)
        } else if spelled(s, "xml", "XML") {
            Some(OutputFile::Xml)
        } else if spelled(s, "html", "HTML") {
            Some(OutputFile::Html)
        } else {
            None
        }
    }
}

/// The report kinds that `names` name, in order; none at all where one of the
/// names is unknown.
pub fn output_files(names: &Vec<String>) -> (r: Vec<OutputFile>)
    ensures
        (forall|i: int| 0 <= i < names@.len() ==> (#[trigger] output_named(names@[i]@)) is Some)
            ==> r@.len() == names@.len() && forall|i: int|
            0 <= i < names@.len() ==> r@[i] == output_named(#[trigger] names@[i]@)->0,
        (exists|i: int| 0 <= i < names@.len() && (#[trigger] output_named(names@[i]@)) is None)
            ==> r@.len() == 0,
{
    let n = names.len();
    let mut out: Vec<OutputFile> = Vec::new();
    let mut i: usize = 0;
    while i < n
        invariant
            n == names@.len(),
            i <= n,
            out@.len() == i,
            forall|j: int| 0 <= j < i ==> (#[trigger] output_named(names@[j]@)) is Some,
            forall|j: int| 0 <= j < i ==> out@[j] == output_named(#[trigger] names@[j]@)->0,
        decreases n - i,
    {
        match OutputFile::from_name(names[i].as_str()) {
            Some(o) => out.push(o),
            None => {
                return Vec::new();
            },
        }
        i = i + 1;
    }
    out
}

/// The resolved command-line values that a configuration is built from.
pub struct Args {
    /// Path of the project's manifest, resolved as far as it could be.
    pub manifest: String,
    pub line: bool,
    pub branch: bool,
    pub verbose: bool,
    pub ignored: bool,
    pub forward: bool,
    pub skip_clean: bool,
    pub no_count: bool,
    pub ignore_tests: bool,
    pub all: bool,
    pub ci_server: Option<String>,
    pub coveralls: Option<String>,
    pub report_uri: Option<String>,
    pub commit: Option<String>,
    pub branch_name: Option<String>,
    pub out: Vec<OutputFile>,
    pub features: Vec<String>,
    pub packages: Vec<String>,
    pub exclude: Vec<String>,
    pub exclude_files: Vec<String>,
    pub varargs: Vec<String>,
}

impl Args {
    /// Values for the manifest at `manifest` with no option given.
    pub fn new(manifest: String) -> (r: Args)
        ensures
            r.manifest == manifest,
            !r.line && !r.branch && !r.verbose && !r.ignored && !r.forward,
            !r.skip_clean && !r.no_count && !r.ignore_tests && !r.all,
            r.ci_server is None && r.coveralls is None && r.report_uri is None,
            r.commit is None && r.branch_name is None,
            r.out@.len() == 0 && r.features@.len() == 0 && r.packages@.len() == 0,
            r.exclude@.len() == 0 && r.exclude_files@.len() == 0 && r.varargs@.len() == 0,
    {
        Args {
            manifest,
            line: false,
            branch: false,
            verbose: false,
            ignored: false,
            forward: false,
            skip_clean: false,
            no_count: false,
            ignore_tests: false,
            all: false,
            ci_server: None,
            coveralls: None,
            report_uri: None,
            commit: None,
            branch_name: None,
            out: Vec::new(),
            features: Vec::new(),
            packages: Vec::new(),
            exclude: Vec::new(),
            exclude_files: Vec::new(),
            varargs: Vec::new(),
        }
    }
}

/// The characters of each string.
pub open spec fn texts(v: Seq<String>) -> Seq<Seq<char>> {
    v.map_values(|s: String| s@)
}

/// The expressions of the globs in `globs` that compile, in order.
pub open spec fn accepted_patterns(globs: Seq<Seq<char>>) -> Seq<Seq<char>>
    decreases globs.len(),
{
    if globs.len() == 0 {
        Seq::empty()
    } else {
        let rest = accepted_patterns(globs.drop_last());
        if accepted_glob(globs.last()) {
            rest.push(glob_regex(globs.last()))
        } else {
            rest
        }
    }
}

/// The globs in `globs` whose expressions do not compile, in order.
pub open spec fn rejected_globs(globs: Seq<Seq<char>>) -> Seq<Seq<char>>
    decreases globs.len(),
{
    if globs.len() == 0 {
        Seq::empty()
    } else {
        let rest = rejected_globs(globs.drop_last());
        if accepted_glob(globs.last()) {
            rest
        } else {
            rest.push(globs.last())
        }
    }
}

/// The manifest's expected location, before it is resolved on disk:
/// `Cargo.toml` under the working directory, or under `root` taken from the
/// working directory where a root is given.
pub fn manifest_location(cwd: &str, root: Option<&str>) -> (r: String)
    ensures
        root matches Some(rt) ==> r@ == push_path(push_path(cwd@, rt@), "Cargo.toml"@),
        root is None ==> r@ == push_path(cwd@, "Cargo.toml"@),
{
    match root {
        Some(rt) => {
            let dir = join_path(cwd, rt);
            join_path(dir.as_str(), "Cargo.toml")
        },
        None => join_path(cwd, "Cargo.toml"),
    }
}

/// The configuration of a run.
pub struct Config {
    /// Path to the project's manifest.
    pub manifest: String,
    /// Also run tests marked as ignored.
    pub run_ignored: bool,
    /// Leave test functions out of coverage statistics.
    pub ignore_tests: bool,
    /// Skip the clean step when preparing the project.
    pub skip_clean: bool,
    /// Print information for the user.
    pub verbose: bool,
    /// Do not count line hits in line coverage.
    pub no_count: bool,
    /// Measure line coverage.
    pub line_coverage: bool,
    /// Measure branch coverage.
    pub branch_coverage: bool,
    /// Local reports to write.
    pub generate: Vec<OutputFile>,
    /// Key of the coverage service or repository.
    pub coveralls: Option<String>,
    /// Continuous-integration service in use.
    pub ci_tool: Option<Ci>,
    /// Forward unexpected signals to the program under test.
    pub forward_signals: bool,
    /// Features to build the project with.
    pub features: Vec<String>,
    /// Build every package of the workspace.
    pub all: bool,
    /// Packages to build.
    pub packages: Vec<String>,
    /// Packages to leave out of testing.
    pub exclude: Vec<String>,
    /// Arguments handed on to the test programs.
    pub varargs: Vec<String>,
    /// Endpoint that replaces the coverage service's own.
    pub report_uri: Option<String>,
    /// Commit message and id to report.
    pub commit: Option<String>,
    /// Branch to report.
    pub branch_name: Option<String>,
    /// Exclusion globs whose expressions did not compile, for diagnostics.
    pub rejected_patterns: Vec<String>,
    /// Compiled exclusion expressions.
    pub excluded_files: Vec<Matcher>,
}

impl Config {
    /// The texts of the compiled exclusion expressions.
    pub open spec fn exclusion_patterns(&self) -> Seq<Seq<char>> {
        self.excluded_files@.map_values(|m: Matcher| m@)
    }

    /// Whether some exclusion expression matches somewhere in `p` made relative
    /// to the manifest's directory.
    pub open spec fn excludes(&self, p: Seq<char>) -> bool {
        exists|i: int|
            0 <= i < self.exclusion_patterns().len() && #[trigger] regex_search(
                self.exclusion_patterns()[i],
                strip_manifest_dir(p, self.manifest@),
            )
    }

    /// Builds the configuration; with neither line nor branch coverage asked
    /// for, both are on. Exclusion globs that do not compile are set aside.
    pub fn from_args(args: Args) -> (r: Config)
        ensures
            r.line_coverage == (args.line || !args.branch),
            r.branch_coverage == (args.branch || !args.line),
            r.manifest == args.manifest,
            r.verbose == args.verbose,
            r.run_ignored == args.ignored,
            r.forward_signals == args.forward,
            r.skip_clean == args.skip_clean,
            r.no_count == args.no_count,
            r.ignore_tests == args.ignore_tests,
            r.all == args.all,
            r.coveralls == args.coveralls,
            r.report_uri == args.report_uri,
            r.commit == args.commit,
            r.branch_name == args.branch_name,
            r.generate == args.out,
            r.features == args.features,
            r.packages == args.packages,
            r.exclude == args.exclude,
            r.varargs == args.varargs,
            args.ci_server is None ==> r.ci_tool is None,
            args.ci_server matches Some(s) ==> (r.ci_tool matches Some(c) && ci_named(c, s@)),
            r.exclusion_patterns() == accepted_patterns(texts(args.exclude_files@)),
            texts(r.rejected_patterns@) == rejected_globs(texts(args.exclude_files@)),
    {
        let mut line = args.line;
        let mut branch = args.branch;
        if !branch && !line {
            branch = true;
            line = true;
        }
        let ci_tool = match &args.ci_server {
            Some(s) => Some(Ci::from_str(s.as_str())),
            None => None,
        };
        let ghost globs = texts(args.exclude_files@);
        let mut ex_files: Vec<Matcher> = Vec::new();
        let mut rejected: Vec<String> = Vec::new();
        let n = args.exclude_files.len();
        let mut i: usize = 0;
        assert(globs.subrange(0, 0) =~= Seq::<Seq<char>>::empty());
        while i < n
            invariant
                n == args.exclude_files@.len(),
                globs == texts(args.exclude_files@),
                i <= n,
                ex_files@.map_values(|m: Matcher| m@) == accepted_patterns(
                    globs.subrange(0, i as int),
                ),
                texts(rejected@) == rejected_globs(globs.subrange(0, i as int)),
            decreases n - i,
        {
            let g = &args.exclude_files[i];
            assert(globs.subrange(0, i + 1).drop_last() =~= globs.subrange(0, i as int));
            assert(globs.subrange(0, i + 1).last() == g@);
            match Matcher::from_glob(g.as_str()) {
                Some(m) => {
                    ex_files.push(m);
                    assert(ex_files@.map_values(|m: Matcher| m@) =~= accepted_patterns(
                        globs.subrange(0, i + 1),
                    ));
                    assert(texts(rejected@) =~= rejected_globs(globs.subrange(0, i + 1)));
                },
                None => {
                    rejected.push(g.clone());
                    assert(texts(rejected@) =~= rejected_globs(globs.subrange(0, i + 1)));
                    assert(ex_files@.map_values(|m: Matcher| m@) =~= accepted_patterns(
                        globs.subrange(0, i + 1),
                    ));
                },
            }
            i = i + 1;
        }
        assert(globs.subrange(0, n as int) =~= globs);
        Config {
            manifest: args.manifest,
            run_ignored: args.ignored,
            ignore_tests: args.ignore_tests,
            skip_clean: args.skip_clean,
            verbose: args.verbose,
            no_count: args.no_count,
            line_coverage: line,
            branch_coverage: branch,
            generate: args.out,
            coveralls: args.coveralls,
            ci_tool,
            forward_signals: args.forward,
            features: args.features,
            all: args.all,
            packages: args.packages,
            exclude: args.exclude,
            varargs: args.varargs,
            report_uri: args.report_uri,
            commit: args.commit,
            branch_name: args.branch_name,
            rejected_patterns: rejected,
            excluded_files: ex_files,
        }
    }

    /// Whether coverage data is to be sent to the coverage service.
    pub fn is_coveralls(&self) -> (r: bool)
        ensures
            r == self.coveralls.is_some(),
    {
        self.coveralls.is_some()
    }

    /// Whether `path` is excluded from coverage results.
    pub fn exclude_path(&self, path: &str) -> (r: bool)
        ensures
            r == self.excludes(path@),
    {
        let rel = self.strip_project_path(path);
        let n = self.excluded_files.len();
        let mut i: usize = 0;
        while i < n
            invariant
                n == self.exclusion_patterns().len(),
                n == self.excluded_files@.len(),
                i <= n,
                rel@ == strip_manifest_dir(path@, self.manifest@),
                forall|j: int|
                    0 <= j < i ==> !regex_search(self.exclusion_patterns()[j], rel@),
            decreases n - i,
        {
            assert(self.exclusion_patterns()[i as int] == self.excluded_files@[i as int]@);
            if self.excluded_files[i].is_match(rel) {
                return true;
            }
            i = i + 1;
        }
        false
    }

    /// `path` without the directory that holds the manifest; `path` itself
    /// where it does not lie under that directory.
    pub fn strip_project_path<'a>(&'a self, path: &'a str) -> (r: &'a str)
        ensures
            r@ == strip_manifest_dir(path@, self.manifest@),
    {
        strip_manifest(path, self.manifest.as_str())
    }
}

/// The expressions accepted from `globs` that match somewhere in `t` are
/// exactly those of the globs that compile and match there.
proof fn lemma_accepted_search(globs: Seq<Seq<char>>, t: Seq<char>)
    ensures
        (exists|j: int|
            0 <= j < accepted_patterns(globs).len() && #[trigger] regex_search(
                accepted_patterns(globs)[j],
                t,
            )) <==> (exists|i: int|
            0 <= i < globs.len() && accepted_glob(globs[i]) && #[trigger] regex_search(
                glob_regex(globs[i]),
                t,
            )),
    decreases globs.len(),
{
    if globs.len() > 0 {
        let init = globs.drop_last();
        lemma_accepted_search(init, t);
        let acc = accepted_patterns(globs);
        let prev = accepted_patterns(init);
        if exists|j: int| 0 <= j < acc.len() && #[trigger] regex_search(acc[j], t) {
            let j = choose|j: int| 0 <= j < acc.len() && #[trigger] regex_search(acc[j], t);
            if j < prev.len() {
                assert(acc[j] == prev[j]);
                let i = choose|i: int|
                    0 <= i < init.len() && accepted_glob(init[i]) && #[trigger] regex_search(
                        glob_regex(init[i]),
                        t,
                    );
                assert(globs[i] == init[i]);
            } else {
                assert(globs[globs.len() - 1] == globs.last());
            }
        }
        if exists|i: int|
            0 <= i < globs.len() && accepted_glob(globs[i]) && #[trigger] regex_search(
                glob_regex(globs[i]),
                t,
            ) {
            let i = choose|i: int|
                0 <= i < globs.len() && accepted_glob(globs[i]) && #[trigger] regex_search(
                    glob_regex(globs[i]),
                    t,
                );
            if i < init.len() {
                assert(init[i] == globs[i]);
                let j = choose|j: int| 0 <= j < prev.len() && #[trigger] regex_search(prev[j], t);
                assert(acc[j] == prev[j]);
            } else {
                assert(acc[acc.len() - 1] == glob_regex(globs.last()));
            }
        }
    }
}

/// A configuration built from exclusion globs excludes a path exactly when one
/// of those globs, with `.` taken literally and `*` as any run of characters,
/// compiles and matches somewhere in the path made relative to the manifest's
/// directory (the path as given where it does not lie under it).
pub proof fn lemma_excludes_iff_glob_matches(c: Config, globs: Seq<Seq<char>>, p: Seq<char>)
    requires
        c.exclusion_patterns() == accepted_patterns(globs),
    ensures
        c.excludes(p) <==> exists|i: int|
            0 <= i < globs.len() && accepted_glob(globs[i]) && #[trigger] regex_search(
                glob_regex(globs[i]),
                strip_manifest_dir(p, c.manifest@),
            ),
{
    lemma_accepted_search(globs, strip_manifest_dir(p, c.manifest@));
}

/// A path that does not lie under the manifest's directory (or whose
/// manifest has no directory) is searched by the exclusion expressions as given.
pub proof fn lemma_outside_path_searched_as_given(c: Config, p: Seq<char>)
    requires
        match parent_of(c.manifest@) {
            Some(root) => stripped_of(p, root) is None,
            None => true,
        },
    ensures
        strip_manifest_dir(p, c.manifest@) == p,
        c.excludes(p) <==> exists|i: int|
            0 <= i < c.exclusion_patterns().len() && #[trigger] regex_search(
                c.exclusion_patterns()[i],
                p,
            ),
{
    assert(strip_manifest_dir(p, c.manifest@) == p);
}

/// With no exclusion globs given, no path is excluded.
pub proof fn lemma_no_globs_excludes_nothing(c: Config, globs: Seq<Seq<char>>, p: Seq<char>)
    requires
        c.exclusion_patterns() == accepted_patterns(globs),
        globs.len() == 0,
    ensures
        !c.excludes(p),
{
}

} // verus!
