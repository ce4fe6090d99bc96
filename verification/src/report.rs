//! The batch report: once every fetch has resolved, each dependency's
//! current version is compared numerically against the fetched latest one
//! and sorted into one of four buckets; development-set entries follow the
//! runtime ones in each bucket, behind a recorded boundary index.

use vstd::prelude::*;

use crate::application::prefix_of;
use crate::entries::{lookup_val, pairs_view};
use crate::fetched::VersionMap;
use crate::version::{
    classify, is_valid_version, parse_version, spec_classify, spec_version_of, VersionSection,
};

verus! {

/// One reportable update: a package, the version the manifest declares, the
/// latest published version, and the recorded range prefix.
pub struct Report {
    pub package_name: String,
    pub current_version: String,
    pub latest_version: String,
    pub range_symbol: Option<char>,
}

impl Report {
    /// Bundle the four recorded facts of one update.
    pub fn new(
        package_name: String,
        current_version: String,
        latest_version: String,
        range_symbol: Option<char>,
    ) -> (r: Report)
        ensures
            r.package_name@ == package_name@,
            r.current_version@ == current_version@,
            r.latest_version@ == latest_version@,
            r.range_symbol == range_symbol,
    {
        Report { package_name, current_version, latest_version, range_symbol }
    }
}

/// The bucket an entry is reported under: its declared version and the
/// fetched latest one both parse, and the classification rules place the
/// pair; entries with no fetched version and entries that do not parse are
/// left out.
pub open spec fn spec_entry_class(
    entry: (Seq<char>, Seq<char>),
    f: Seq<(Seq<char>, Seq<char>)>,
) -> Option<VersionSection> {
    match lookup_val(f, entry.0) {
        None => None,
        Some(lv) => if is_valid_version(entry.1) && is_valid_version(lv) {
            spec_classify(spec_version_of(entry.1), spec_version_of(lv))
        } else {
            None
        },
    }
}

/// The entries of `es`, in order, that are reported under `sect`.
pub open spec fn bucket_of(
    es: Seq<(Seq<char>, Seq<char>)>,
    f: Seq<(Seq<char>, Seq<char>)>,
    sect: VersionSection,
) -> Seq<(Seq<char>, Seq<char>)>
    decreases es.len(),
{
    if es.len() == 0 {
        Seq::empty()
    } else if spec_entry_class(es.last(), f) == Some(sect) {
        bucket_of(es.drop_last(), f, sect).push(es.last())
    } else {
        bucket_of(es.drop_last(), f, sect)
    }
}

/// `r` reports `entry`: same package, the declared version verbatim, the
/// fetched latest version, and the declared version's range prefix.
pub open spec fn report_matches(
    r: Report,
    entry: (Seq<char>, Seq<char>),
    f: Seq<(Seq<char>, Seq<char>)>,
) -> bool {
    &&& r.package_name@ == entry.0
    &&& r.current_version@ == entry.1
    &&& lookup_val(f, entry.0) == Some(r.latest_version@)
    &&& r.range_symbol == prefix_of(entry.1)
}

/// `reports` is exactly the `sect` bucket of `es`: one report per bucket
/// entry, in encounter order.
pub open spec fn is_bucket(
    reports: Seq<Report>,
    es: Seq<(Seq<char>, Seq<char>)>,
    f: Seq<(Seq<char>, Seq<char>)>,
    sect: VersionSection,
) -> bool {
    &&& reports.len() == bucket_of(es, f, sect).len()
    &&& forall|k: int|
        0 <= k < reports.len() ==> report_matches(#[trigger] reports[k], bucket_of(es, f, sect)[k], f)
}

/// The four buckets of one batch run; each `*_dev_start` is the position in
/// its bucket where the development-set entries begin.
pub struct ReportSet {
    pub patch: Vec<Report>,
    pub minor: Vec<Report>,
    pub major: Vec<Report>,
    pub pre_v1: Vec<Report>,
    pub patch_dev_start: usize,
    pub minor_dev_start: usize,
    pub major_dev_start: usize,
    pub pre_v1_dev_start: usize,
}

/// Classify every dependency against the fetched latest versions: runtime
/// entries first, then development entries, each into at most one bucket.
pub fn build_report(
    deps: &Vec<(String, String)>,
    dev_deps: &Vec<(String, String)>,
    fetched: &VersionMap,
) -> (r: ReportSet)
    requires
        fetched.wf(),
    ensures
        ({
            let run = pairs_view(deps@);
            let all = pairs_view(deps@) + pairs_view(dev_deps@);
            &&& is_bucket(r.patch@, all, fetched@, VersionSection::Patch)
            &&& is_bucket(r.minor@, all, fetched@, VersionSection::Minor)
            &&& is_bucket(r.major@, all, fetched@, VersionSection::Major)
            &&& is_bucket(r.pre_v1@, all, fetched@, VersionSection::PreV1)
            &&& r.patch_dev_start == bucket_of(run, fetched@, VersionSection::Patch).len()
            &&& r.minor_dev_start == bucket_of(run, fetched@, VersionSection::Minor).len()
            &&& r.major_dev_start == bucket_of(run, fetched@, VersionSection::Major).len()
            &&& r.pre_v1_dev_start == bucket_of(run, fetched@, VersionSection::PreV1).len()
        }),
{
    let ghost f = fetched@;
    let ghost all = pairs_view(deps@) + pairs_view(dev_deps@);
    let mut out = ReportSet {
        patch: Vec::new(),
        minor: Vec::new(),
        major: Vec::new(),
        pre_v1: Vec::new(),
        patch_dev_start: 0,
        minor_dev_start: 0,
        major_dev_start: 0,
        pre_v1_dev_start: 0,
    };
    proof {
        assert(pairs_view(deps@).subrange(0, 0) =~= Seq::empty());
    }
    let mut i: usize = 0;
    while i < deps.len()
        invariant
            i <= deps@.len(),
            fetched.wf(),
            f == fetched@,
            is_bucket(out.patch@, pairs_view(deps@).subrange(0, i as int), f, VersionSection::Patch),
            is_bucket(out.minor@, pairs_view(deps@).subrange(0, i as int), f, VersionSection::Minor),
            is_bucket(out.major@, pairs_view(deps@).subrange(0, i as int), f, VersionSection::Major),
            is_bucket(
                out.pre_v1@,
                pairs_view(deps@).subrange(0, i as int),
                f,
                VersionSection::PreV1,
            ),
        decreases deps@.len() - i,
    {
        let ghost pre = pairs_view(deps@).subrange(0, i as int);
        classify_into(&mut out, &deps[i].0, &deps[i].1, fetched, Ghost(pre));
        proof {
            assert(pairs_view(deps@).subrange(0, i + 1) =~= pre.push(pairs_view(deps@)[i as int]));
        }
        i = i + 1;
    }
    proof {
        assert(pairs_view(deps@).subrange(0, deps@.len() as int) =~= pairs_view(deps@));
    }
    out.patch_dev_start = out.patch.len();
    out.minor_dev_start = out.minor.len();
    out.major_dev_start = out.major.len();
    out.pre_v1_dev_start = out.pre_v1.len();
    let mut j: usize = 0;
    while j < dev_deps.len()
        invariant
            j <= dev_deps@.len(),
            fetched.wf(),
            f == fetched@,
            out.patch_dev_start == bucket_of(pairs_view(deps@), f, VersionSection::Patch).len(),
            out.minor_dev_start == bucket_of(pairs_view(deps@), f, VersionSection::Minor).len(),
            out.major_dev_start == bucket_of(pairs_view(deps@), f, VersionSection::Major).len(),
            out.pre_v1_dev_start == bucket_of(pairs_view(deps@), f, VersionSection::PreV1).len(),
            is_bucket(
                out.patch@,
                pairs_view(deps@) + pairs_view(dev_deps@).subrange(0, j as int),
                f,
                VersionSection::Patch,
            ),
            is_bucket(
                out.minor@,
                pairs_view(deps@) + pairs_view(dev_deps@).subrange(0, j as int),
                f,
                VersionSection::Minor,
            ),
            is_bucket(
                out.major@,
                pairs_view(deps@) + pairs_view(dev_deps@).subrange(0, j as int),
                f,
                VersionSection::Major,
            ),
            is_bucket(
                out.pre_v1@,
                pairs_view(deps@) + pairs_view(dev_deps@).subrange(0, j as int),
                f,
                VersionSection::PreV1,
            ),
        decreases dev_deps@.len() - j,
    {
        let ghost pre = pairs_view(deps@) + pairs_view(dev_deps@).subrange(0, j as int);
        proof {
            assert(pairs_view(deps@).subrange(0, pairs_view(deps@).len() as int) =~= pairs_view(
                deps@,
            ));
        }
        classify_into(&mut out, &dev_deps[j].0, &dev_deps[j].1, fetched, Ghost(pre));
        proof {
            assert(pairs_view(deps@) + pairs_view(dev_deps@).subrange(0, j + 1) =~= pre.push(
                pairs_view(dev_deps@)[j as int],
            ));
        }
        j = j + 1;
    }
    proof {
        assert(pairs_view(deps@) + pairs_view(dev_deps@).subrange(0, dev_deps@.len() as int)
            =~= all);
    }
    out
}

/// Classify one entry and append its report, if any, to the right bucket.
fn classify_into(
    out: &mut ReportSet,
    name: &String,
    current: &String,
    fetched: &VersionMap,
    Ghost(pre): Ghost<Seq<(Seq<char>, Seq<char>)>>,
)
    requires
        fetched.wf(),
        is_bucket(old(out).patch@, pre, fetched@, VersionSection::Patch),
        is_bucket(old(out).minor@, pre, fetched@, VersionSection::Minor),
        is_bucket(old(out).major@, pre, fetched@, VersionSection::Major),
        is_bucket(old(out).pre_v1@, pre, fetched@, VersionSection::PreV1),
    ensures
        is_bucket(final(out).patch@, pre.push((name@, current@)), fetched@, VersionSection::Patch),
        is_bucket(final(out).minor@, pre.push((name@, current@)), fetched@, VersionSection::Minor),
        is_bucket(final(out).major@, pre.push((name@, current@)), fetched@, VersionSection::Major),
        is_bucket(final(out).pre_v1@, pre.push((name@, current@)), fetched@, VersionSection::PreV1),
        final(out).patch_dev_start == old(out).patch_dev_start,
        final(out).minor_dev_start == old(out).minor_dev_start,
        final(out).major_dev_start == old(out).major_dev_start,
        final(out).pre_v1_dev_start == old(out).pre_v1_dev_start,
{
    let ghost entry = (name@, current@);
    proof {
        assert(pre.push(entry).drop_last() =~= pre);
        assert(pre.push(entry).last() == entry);
    }
    let sect: Option<VersionSection> = match fetched.get(name) {
        Some(lv) => match parse_version(current.as_str()) {
            Some(cur_v) => match parse_version(lv.as_str()) {
                Some(lat_v) => classify(&cur_v, &lat_v),
                None => None,
            },
            None => None,
        },
        None => None,
    };
    match sect {
        Some(VersionSection::Patch) => {
            let r = make_report(name, current, fetched);
            out.patch.push(r);
        },
        Some(VersionSection::Minor) => {
            let r = make_report(name, current, fetched);
            out.minor.push(r);
        },
        Some(VersionSection::Major) => {
            let r = make_report(name, current, fetched);
            out.major.push(r);
        },
        Some(VersionSection::PreV1) => {
            let r = make_report(name, current, fetched);
            out.pre_v1.push(r);
        },
        None => {},
    }
}

/// The report of one entry whose fetch completed.
fn make_report(name: &String, current: &String, fetched: &VersionMap) -> (r: Report)
    requires
        fetched.wf(),
        lookup_val(fetched@, name@) is Some,
    ensures
        report_matches(r, (name@, current@), fetched@),
{
    let latest = match fetched.get(name) {
        Some(lv) => lv.clone(),
        None => {
            proof {
                assert(false);
            }
            vstd::pervasive::unreached()
        },
    };
    let prefix = crate::application::range_prefix_of(current);
    Report {
        package_name: name.clone(),
        current_version: current.clone(),
        latest_version: latest,
        range_symbol: prefix,
    }
}

} // verus!
