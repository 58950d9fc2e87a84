//! Grouping of raw hit records into per-file line coverage.
use std::collections::HashMap;
use vstd::prelude::*;
use vstd::string::*;
use crate::config::{texts, Config};
use crate::path::strip_manifest_dir;
use crate::text::same_text;

verus! {

broadcast use vstd::std_specs::hash::group_hash_axioms;

/// One execution count of one line, as the tracer reports it.
pub struct HitRecord {
    pub path: String,
    pub line: u64,
    pub hits: u64,
}

/// Line coverage of one file.
pub struct FileCoverage {
    /// The file's path as the records give it.
    pub path: String,
    /// The path relative to the manifest's directory.
    pub relative_path: String,
    /// Hit count of each line.
    pub lines: HashMap<u64, u64>,
}

/// The files to report: the distinct paths of `recs` that `c` does not
/// exclude, in the order of their first record.
pub open spec fn report_files(c: Config, recs: Seq<HitRecord>) -> Seq<Seq<char>>
    decreases recs.len(),
{
    if recs.len() == 0 {
        Seq::empty()
    } else {
        let prev = report_files(c, recs.drop_last());
        let p = recs.last().path@;
        if prev.contains(p) || c.excludes(p) {
            prev
        } else {
            prev.push(p)
        }
    }
}

/// The hit count of each line of `f`: each record of `f`, in order, sets
/// its line's count, so the last record of a line decides it.
pub open spec fn line_hits(recs: Seq<HitRecord>, f: Seq<char>) -> Map<u64, u64>
    decreases recs.len(),
{
    if recs.len() == 0 {
        Map::empty()
    } else {
        let prev = line_hits(recs.drop_last(), f);
        if recs.last().path@ == f {
            prev.insert(recs.last().line, recs.last().hits)
        } else {
            prev
        }
    }
}

/// Whether one of `v` holds the text `p`.
pub fn contains_text(v: &Vec<String>, p: &str) -> (r: bool)
    ensures
        r == texts(v@).contains(p@),
{
    let n = v.len();
    let mut i: usize = 0;
    while i < n
        invariant
            n == v@.len(),
            i <= n,
            forall|j: int| 0 <= j < i ==> v@[j]@ != p@,
        decreases n - i,
    {
        if same_text(v[i].as_str(), p) {
            assert(texts(v@)[i as int] == p@);
            return true;
        }
        i = i + 1;
    }
    proof {
        if texts(v@).contains(p@) {
            let j = choose|j: int| 0 <= j < texts(v@).len() && texts(v@)[j] == p@;
            assert(v@[j]@ == p@);
        }
    }
    false
}

/// Groups `records` by file: one entry per distinct path that `config` does
/// not exclude, in the order of first occurrence, each with the hit count of
/// its lines (a later record of a line replaces an earlier one).
pub fn aggregate(records: &[HitRecord], config: &Config) -> (r: Vec<FileCoverage>)
    ensures
        r@.len() == report_files(*config, records@).len(),
        forall|i: int|
            0 <= i < r@.len() ==> {
                let f = #[trigger] report_files(*config, records@)[i];
                &&& r@[i].path@ == f
                &&& r@[i].relative_path@ == strip_manifest_dir(f, config.manifest@)
                &&& r@[i].lines@ == line_hits(records@, f)
            },
{
    let n = records.len();
    let mut files: Vec<String> = Vec::new();
    let mut k: usize = 0;
    assert(records@.subrange(0, 0) =~= Seq::<HitRecord>::empty());
    while k < n
        invariant
            n == records@.len(),
            k <= n,
            texts(files@) == report_files(*config, records@.subrange(0, k as int)),
        decreases n - k,
    {
        let p = &records[k].path;
        assert(records@.subrange(0, k + 1).drop_last() =~= records@.subrange(0, k as int));
        if !contains_text(&files, p.as_str()) && !config.exclude_path(p.as_str()) {
            files.push(p.clone());
            assert(texts(files@) =~= report_files(*config, records@.subrange(0, k + 1)));
        }
        k = k + 1;
    }
    assert(records@.subrange(0, n as int) =~= records@);
    let ghost fs = report_files(*config, records@);
    let m = files.len();
    let mut out: Vec<FileCoverage> = Vec::new();
    let mut i: usize = 0;
    while i < m
        invariant
            n == records@.len(),
            m == files@.len(),
            texts(files@) == fs,
            fs == report_files(*config, records@),
            i <= m,
            out@.len() == i,
            forall|j: int|
                0 <= j < i ==> {
                    let f = #[trigger] fs[j];
                    &&& out@[j].path@ == f
                    &&& out@[j].relative_path@ == strip_manifest_dir(f, config.manifest@)
                    &&& out@[j].lines@ == line_hits(records@, f)
                },
        decreases m - i,
    {
        let f = &files[i];
        assert(fs[i as int] == f@);
        let mut lines: HashMap<u64, u64> = HashMap::new();
        let mut k: usize = 0;
        while k < n
            invariant
                n == records@.len(),
                k <= n,
                lines@ == line_hits(records@.subrange(0, k as int), f@),
            decreases n - k,
        {
            assert(records@.subrange(0, k + 1).drop_last() =~= records@.subrange(0, k as int));
            let rec = &records[k];
            if same_text(rec.path.as_str(), f.as_str()) {
                lines.insert(rec.line, rec.hits);
            }
            k = k + 1;
        }
        assert(records@.subrange(0, n as int) =~= records@);
        let relative_path = config.strip_project_path(f.as_str()).to_owned();
        out.push(FileCoverage { path: f.clone(), relative_path, lines });
        i = i + 1;
    }
    out
}

/// Files are reported in the order in which their paths first occur among the
/// records, later repeats changing nothing: no file is reported twice, each
/// reported file is the path of a record and is not excluded, each record
/// whose path is not excluded has its file reported, and of two reported
/// files the earlier occurs among the records before the later one first does.
pub proof fn lemma_files_in_first_seen_order(c: Config, recs: Seq<HitRecord>)
    ensures
        report_files(c, recs).no_duplicates(),
        forall|i: int|
            0 <= i < report_files(c, recs).len() ==> !c.excludes(#[trigger] report_files(c, recs)[i])
                && exists|k: int| 0 <= k < recs.len() && recs[k].path@ == report_files(c, recs)[i],
        forall|k: int|
            0 <= k < recs.len() && !c.excludes(#[trigger] recs[k].path@) ==> report_files(
                c,
                recs,
            ).contains(recs[k].path@),
        forall|i: int, j: int|
            0 <= i < j < report_files(c, recs).len() ==> exists|k: int|
                0 <= k < recs.len() && recs[k].path@ == #[trigger] report_files(c, recs)[i]
                    && forall|k2: int| 0 <= k2 <= k ==> recs[k2].path@ != #[trigger] report_files(
                    c,
                    recs,
                )[j],
    decreases recs.len(),
{
    if recs.len() > 0 {
        let init = recs.drop_last();
        lemma_files_in_first_seen_order(c, init);
        let prev = report_files(c, init);
        let files = report_files(c, recs);
        let p = recs.last().path@;
        let last = recs.len() - 1;
        assert forall|k: int| 0 <= k < init.len() implies init[k] == recs[k] by {}
        assert forall|i: int| 0 <= i < files.len() implies !c.excludes(#[trigger] files[i])
            && exists|k: int| 0 <= k < recs.len() && recs[k].path@ == files[i] by {
            if i < prev.len() {
                assert(files[i] == prev[i]);
                let k = choose|k: int| 0 <= k < init.len() && init[k].path@ == prev[i];
                assert(recs[k].path@ == files[i]);
            } else {
                assert(recs[last].path@ == files[i]);
            }
        }
        assert forall|k: int| 0 <= k < recs.len() && !c.excludes(#[trigger] recs[k].path@) implies files.contains(
            recs[k].path@,
        ) by {
            if k < init.len() {
                assert(init[k].path@ == recs[k].path@);
                let i = choose|i: int| 0 <= i < prev.len() && prev[i] == init[k].path@;
                assert(files[i] == prev[i]);
            } else if prev.contains(p) {
            } else {
                assert(files[files.len() - 1] == p);
            }
        }
        assert forall|i: int, j: int| 0 <= i < j < files.len() implies exists|k: int|
            0 <= k < recs.len() && recs[k].path@ == #[trigger] files[i] && forall|k2: int|
                0 <= k2 <= k ==> recs[k2].path@ != #[trigger] files[j] by {
            assert(files[i] == prev[i]);
            if j < prev.len() {
                assert(files[j] == prev[j]);
                let k = choose|k: int|
                    0 <= k < init.len() && init[k].path@ == #[trigger] prev[i] && forall|k2: int|
                        0 <= k2 <= k ==> init[k2].path@ != #[trigger] prev[j];
                assert(recs[k].path@ == files[i]);
                assert forall|k2: int| 0 <= k2 <= k implies recs[k2].path@ != files[j] by {
                    assert(init[k2] == recs[k2]);
                }
            } else {
                assert(files[j] == p);
                assert(!prev.contains(p) && !c.excludes(p));
                let k = choose|k: int| 0 <= k < init.len() && init[k].path@ == prev[i];
                assert(recs[k].path@ == files[i]);
                assert forall|k2: int| 0 <= k2 <= k implies recs[k2].path@ != files[j] by {
                    assert(init[k2] == recs[k2]);
                    if init[k2].path@ == p {
                        assert(prev.contains(init[k2].path@));
                    }
                }
            }
        }
    }
}

/// A line's hit count is that of the last record of its file and line: a
/// later record replaces an earlier count, it is not added to it.
pub proof fn lemma_last_record_wins(recs: Seq<HitRecord>, f: Seq<char>, k: int)
    requires
        0 <= k < recs.len(),
        recs[k].path@ == f,
        forall|k2: int|
            k < k2 < recs.len() ==> !(recs[k2].path@ == f && #[trigger] recs[k2].line == recs[k].line),
    ensures
        line_hits(recs, f).contains_key(recs[k].line),
        line_hits(recs, f)[recs[k].line] == recs[k].hits,
    decreases recs.len(),
{
    if k < recs.len() - 1 {
        let init = recs.drop_last();
        assert forall|k2: int| k < k2 < init.len() implies !(init[k2].path@ == f && #[trigger] init[k2].line
            == init[k].line) by {
            assert(init[k2] == recs[k2]);
        }
        lemma_last_record_wins(init, f, k);
        let last = recs.len() - 1;
        assert(!(recs[last].path@ == f && recs[last].line == recs[k].line));
    }
}

/// The lines counted for `f` are exactly those that some record of `f` names.
pub proof fn lemma_counted_lines(recs: Seq<HitRecord>, f: Seq<char>, l: u64)
    ensures
        line_hits(recs, f).contains_key(l) <==> exists|k: int|
            0 <= k < recs.len() && recs[k].path@ == f && #[trigger] recs[k].line == l,
    decreases recs.len(),
{
    if recs.len() > 0 {
        let init = recs.drop_last();
        lemma_counted_lines(init, f, l);
        if exists|k: int| 0 <= k < init.len() && init[k].path@ == f && #[trigger] init[k].line == l {
            let k = choose|k: int| 0 <= k < init.len() && init[k].path@ == f && #[trigger] init[k].line == l;
            assert(recs[k] == init[k]);
        }
        if exists|k: int| 0 <= k < recs.len() && recs[k].path@ == f && #[trigger] recs[k].line == l {
            let k = choose|k: int| 0 <= k < recs.len() && recs[k].path@ == f && #[trigger] recs[k].line == l;
            if k < init.len() {
                assert(recs[k] == init[k]);
            }
        }
    }
}

} // verus!
