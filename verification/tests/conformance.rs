use stozher_kernel::conformance::{
    check_decay_independence, may_record, GroupResult, Run, REQUIRED_GROUPS,
};

fn run() -> Run {
    Run::new("a".repeat(64).as_str(), "notes", "2026-07-31T09:00:00.000Z")
}

fn pass_everything(run: &mut Run) {
    for group in REQUIRED_GROUPS {
        run.record(group, GroupResult::Passed { checks: 1 });
    }
}

#[test]
fn a_new_run_is_red_and_names_every_group_it_has_not_done() {
    let run = run();
    assert!(!run.is_green());
    assert_eq!(run.outstanding(), REQUIRED_GROUPS.to_vec());
}

#[test]
fn a_run_is_green_only_when_every_group_is_satisfied() {
    let mut run = run();
    pass_everything(&mut run);
    assert!(run.is_green(), "{:?}", run.outstanding());

    for group in REQUIRED_GROUPS {
        let mut partial = run.copy();
        partial.record(
            group,
            GroupResult::NotRun {
                why: "not implemented yet".to_owned(),
            },
        );
        assert!(
            !partial.is_green(),
            "a run with {group} unexecuted reported itself green"
        );
        assert_eq!(partial.outstanding(), vec![group]);
    }
}

#[test]
fn a_failed_group_is_not_satisfied_and_neither_is_an_absent_one() {
    let mut run = run();
    pass_everything(&mut run);
    run.record(
        "negative-cases",
        GroupResult::Failed {
            detail: "a gated action applied with no authorization was accepted".to_owned(),
        },
    );
    assert!(!run.is_green());

    let mut crashed = run.copy();
    crashed.groups.retain(|(group, _)| group != "offline-behaviour");
    assert!(crashed.outstanding().contains(&"offline-behaviour"));
}

#[test]
fn only_durable_objects_may_be_reported_as_not_applicable() {
    let mut run = run();
    pass_everything(&mut run);
    run.record(
        "durable-objects",
        GroupResult::NotApplicable {
            why: "the manifest declares none".to_owned(),
        },
    );
    assert!(
        run.is_green(),
        "a component with no durable objects cannot pass"
    );
}

#[test]
fn a_group_that_always_applies_cannot_be_recorded_as_inapplicable() {
    let opted_out = GroupResult::NotApplicable {
        why: "we would rather not".to_owned(),
    };
    assert!(!may_record("negative-cases", &opted_out));
    assert!(may_record("durable-objects", &opted_out));
    assert!(!may_record("vibes", &GroupResult::Passed { checks: 1 }));
    assert!(may_record("negative-cases", &GroupResult::Passed { checks: 1 }));
}

#[test]
fn the_evidence_names_every_group_including_the_ones_that_did_not_run() {
    let mut run = run();
    run.record("vectors", GroupResult::Passed { checks: 208 });
    let evidence = run.evidence();

    assert_eq!(evidence.at("green").as_bool(), Some(false));
    for group in REQUIRED_GROUPS {
        assert!(
            evidence.at("groups").get(group).is_some(),
            "the evidence omits {group}"
        );
    }
    let names: Vec<&String> =
        evidence.at("groups").as_record().unwrap().iter().map(|(name, _)| name).collect();
    assert!(names.windows(2).all(|pair| pair[0] < pair[1]), "{names:?}");
    assert_eq!(
        evidence.at("groups").at("vectors").text_at("result"),
        Some("passed")
    );
    assert_eq!(evidence.at("groups").at("vectors").at("checks").as_u64(), Some(208));
    assert_eq!(
        evidence.at("groups").at("offline-behaviour").text_at("result"),
        Some("not-run")
    );
    assert_eq!(
        evidence.at("outstanding").as_list().map(Vec::len),
        Some(REQUIRED_GROUPS.len() - 1)
    );
}

#[test]
fn the_group_list_is_the_one_the_specification_fixes() {
    assert_eq!(REQUIRED_GROUPS.len(), 7);
    assert!(REQUIRED_GROUPS.contains(&"negative-cases"));
    assert!(REQUIRED_GROUPS.contains(&"offline-behaviour"));
}

#[test]
fn decay_that_deleted_nothing_or_moved_the_head_demonstrates_nothing() {
    assert_eq!(
        check_decay_independence("aa", "aa", true, 3),
        GroupResult::Passed { checks: 3 }
    );
    assert!(!check_decay_independence("aa", "aa", true, 0).satisfied());
    assert!(!check_decay_independence("aa", "aa", false, 3).satisfied());
    assert_eq!(
        check_decay_independence("aa", "bb", true, 3),
        GroupResult::Failed {
            detail: "the head hash moved across decay: aa became bb".to_owned()
        }
    );
}
