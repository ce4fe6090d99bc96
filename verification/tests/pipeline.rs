use depup::{FetchError, FetchPipeline, LatestVersion, Metadata, Report, ReportSet, VersionMap};

fn names(n: usize) -> Vec<String> {
    (0..n).map(|i| format!("pkg-{}", i)).collect()
}

#[test]
fn ceiling_caps_outstanding_requests() {
    let mut p = FetchPipeline::new(names(20), 8);
    let mut launched: Vec<String> = Vec::new();
    while p.can_launch() {
        launched.push(p.launch());
    }
    assert_eq!(p.outstanding(), 8);
    assert_eq!(launched.len(), 8);
    assert!(!p.can_launch());
}

#[test]
fn all_twenty_results_appear_exactly_once() {
    let mut p = FetchPipeline::new(names(20), 8);
    let mut outstanding: usize = 0;
    while p.can_launch() || outstanding > 0 {
        while p.can_launch() {
            p.launch();
            outstanding += 1;
            assert!(p.outstanding() <= 8);
        }
        // complete one request; completion order is arbitrary, so take the
        // newest outstanding one
        p.complete(
            outstanding - 1,
            Ok(Metadata {
                name: String::from("x"),
                dist_tags: LatestVersion { latest: String::from("1.0.0") },
            }),
        );
        outstanding -= 1;
    }
    assert!(p.is_drained());
    let produced = p.produced();
    assert_eq!(produced.len(), 20);
    let mut seen: Vec<&str> = produced.iter().map(|(n, _)| n.as_str()).collect();
    seen.sort();
    let mut expected: Vec<String> = names(20);
    expected.sort();
    let expected_refs: Vec<&str> = expected.iter().map(|s| s.as_str()).collect();
    assert_eq!(seen, expected_refs);
}

#[test]
fn a_failed_fetch_does_not_block_the_rest() {
    let mut p = FetchPipeline::new(names(20), 8);
    while p.can_launch() {
        p.launch();
    }
    // the first completion fails; a slot frees up and the rest continue
    p.complete(0, Err(FetchError::NetworkError));
    assert!(p.can_launch());
    let mut outstanding = p.outstanding();
    while p.can_launch() || outstanding > 0 {
        while p.can_launch() {
            p.launch();
            outstanding += 1;
        }
        p.complete(0, Err(FetchError::NetworkError));
        outstanding -= 1;
    }
    assert!(p.is_drained());
    assert_eq!(p.produced().len(), 20);
    assert!(p.produced().iter().all(|(_, r)| r.is_err()));
}

#[test]
fn report_buckets_and_dev_boundary() {
    let deps: Vec<(String, String)> = vec![
        (String::from("patchy"), String::from("1.2.3")),
        (String::from("minory"), String::from("^1.2.3")),
        (String::from("majory"), String::from("~1.2.3")),
        (String::from("zeroish"), String::from("0.5.0")),
        (String::from("current"), String::from("1.2.3")),
        (String::from("unfetched"), String::from("1.0.0")),
    ];
    let dev: Vec<(String, String)> = vec![(String::from("devpatch"), String::from("2.0.0"))];
    let mut fetched = VersionMap::new();
    fetched.insert(String::from("patchy"), String::from("1.2.4"));
    fetched.insert(String::from("minory"), String::from("1.3.0"));
    fetched.insert(String::from("majory"), String::from("2.0.0"));
    fetched.insert(String::from("zeroish"), String::from("0.5.1"));
    fetched.insert(String::from("current"), String::from("1.2.3"));
    fetched.insert(String::from("devpatch"), String::from("2.0.9"));
    let r: ReportSet = depup::build_report(&deps, &dev, &fetched);

    assert_eq!(r.patch.len(), 2);
    assert_eq!(r.patch[0].package_name, "patchy");
    assert_eq!(r.patch[0].latest_version, "1.2.4");
    assert_eq!(r.patch[0].range_symbol, None);
    assert_eq!(r.patch[1].package_name, "devpatch");
    assert_eq!(r.patch_dev_start, 1);

    assert_eq!(r.minor.len(), 1);
    assert_eq!(r.minor[0].package_name, "minory");
    assert_eq!(r.minor[0].range_symbol, Some('^'));
    assert_eq!(r.minor_dev_start, 1);

    assert_eq!(r.major.len(), 1);
    assert_eq!(r.major[0].package_name, "majory");
    assert_eq!(r.major[0].range_symbol, Some('~'));

    assert_eq!(r.pre_v1.len(), 1);
    assert_eq!(r.pre_v1[0].package_name, "zeroish");
}

#[test]
fn report_constructor_keeps_fields() {
    let r = Report::new(
        String::from("left-pad"),
        String::from("^1.3.0"),
        String::from("2.0.0"),
        Some('^'),
    );
    assert_eq!(r.package_name, "left-pad");
    assert_eq!(r.current_version, "^1.3.0");
    assert_eq!(r.latest_version, "2.0.0");
    assert_eq!(r.range_symbol, Some('^'));
}

#[test]
fn version_map_overwrite_is_idempotent() {
    let mut m = VersionMap::new();
    m.insert(String::from("a"), String::from("1.0.0"));
    m.insert(String::from("a"), String::from("1.0.0"));
    assert_eq!(m.len(), 1);
    assert_eq!(m.get(&String::from("a")), Some(&String::from("1.0.0")));
}
