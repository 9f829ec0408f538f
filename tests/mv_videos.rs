use clams::moves::{MoveExecutor, MoveStatus};
use clams::mv_videos::{
    build_find_cmd, check_size_arg, destination_path, discovery_result, parse_extensions,
    parse_find_output, partition_existing, plan_moves, prepare_discovery, verify_found_files,
    DiscoveryEvent, MoveEntry, MvError, SizeThreshold, SizeUnit,
};

fn strings(v: &[&str]) -> Vec<String> {
    v.iter().map(|s| s.to_string()).collect()
}

fn entry(from: &str, to: &str) -> MoveEntry {
    MoveEntry { from: from.to_string(), to: to.to_string() }
}

#[test]
fn size_rejects_empty_unknown_suffix_and_non_numeric() {
    assert_eq!(check_size_arg(""), Err(MvError::InvalidSize(String::new())));
    assert_eq!(check_size_arg("a10"), Err(MvError::InvalidSize("a10".to_string())));
    assert_eq!(check_size_arg("100L"), Err(MvError::InvalidSize("100L".to_string())));
}

#[test]
fn size_accepts_plain_and_scaled_magnitudes() {
    assert_eq!(check_size_arg("100"), Ok(SizeThreshold { magnitude: 100, unit: None }));
    assert_eq!(
        check_size_arg("100k"),
        Ok(SizeThreshold { magnitude: 100, unit: Some(SizeUnit::Kilo) })
    );
    assert_eq!(
        check_size_arg("100M"),
        Ok(SizeThreshold { magnitude: 100, unit: Some(SizeUnit::Mega) })
    );
    assert_eq!(check_size_arg("7G"), Ok(SizeThreshold { magnitude: 7, unit: Some(SizeUnit::Giga) }));
    assert_eq!(check_size_arg("2T"), Ok(SizeThreshold { magnitude: 2, unit: Some(SizeUnit::Tera) }));
    assert_eq!(check_size_arg("1P"), Ok(SizeThreshold { magnitude: 1, unit: Some(SizeUnit::Peta) }));
}

#[test]
fn size_zero_is_valid() {
    assert_eq!(check_size_arg("0"), Ok(SizeThreshold { magnitude: 0, unit: None }));
}

#[test]
fn size_edge_cases() {
    assert!(check_size_arg("k").is_err());
    assert!(check_size_arg("-5").is_err());
    assert!(check_size_arg("+5").is_err());
    assert!(check_size_arg("10 M").is_err());
    assert!(check_size_arg("100m").is_err());
    assert_eq!(
        check_size_arg("18446744073709551615"),
        Ok(SizeThreshold { magnitude: u64::MAX, unit: None })
    );
    assert!(check_size_arg("18446744073709551616").is_err());
    assert!(check_size_arg("99999999999999999999k").is_err());
}

#[test]
fn extensions_empty_fails() {
    assert_eq!(parse_extensions(""), Err(MvError::EmptyExtensions));
    assert_eq!(parse_extensions(","), Err(MvError::EmptyExtensions));
}

#[test]
fn extensions_single() {
    assert_eq!(parse_extensions("mkv"), Ok(strings(&["mkv"])));
}

#[test]
fn extensions_two_with_and_without_trailing_comma() {
    assert_eq!(parse_extensions("mkv,avi"), Ok(strings(&["mkv", "avi"])));
    assert_eq!(parse_extensions("mkv,avi,"), Ok(strings(&["mkv", "avi"])));
}

#[test]
fn extensions_drop_empty_pieces() {
    assert_eq!(parse_extensions("avi,,mkv"), Ok(strings(&["avi", "mkv"])));
    assert_eq!(parse_extensions(",avi"), Ok(strings(&["avi"])));
}

#[test]
fn find_command_for_default_arguments() {
    let sources = strings(&["one", "two"]);
    let threshold = check_size_arg("100M").unwrap();
    let extensions = strings(&["avi", "mkv", "mp4"]);
    let cmd = build_find_cmd(&sources, &threshold, &extensions).unwrap();
    assert_eq!(
        cmd,
        "find \"one\" \"two\" -type f -size +100M -name \"*.avi\" -or -name \"*.mkv\" -or -name \"*.mp4\""
    );
}

#[test]
fn find_command_is_the_same_for_the_same_arguments() {
    let threshold = SizeThreshold { magnitude: 5, unit: Some(SizeUnit::Kilo) };
    let a = build_find_cmd(&strings(&["x y"]), &threshold, &strings(&["mkv"]));
    let b = build_find_cmd(&strings(&["x y"]), &threshold, &strings(&["mkv"]));
    assert_eq!(a, b);
    assert_eq!(a, Ok("find \"x y\" -type f -size +5k -name \"*.mkv\"".to_string()));
}

#[test]
fn find_command_without_unit() {
    let threshold = SizeThreshold { magnitude: 0, unit: None };
    let cmd = build_find_cmd(&strings(&["/v"]), &threshold, &strings(&["avi", "mp4"]));
    assert_eq!(
        cmd,
        Ok("find \"/v\" -type f -size +0 -name \"*.avi\" -or -name \"*.mp4\"".to_string())
    );
}

#[test]
fn find_command_needs_sources_and_extensions() {
    let threshold = SizeThreshold { magnitude: 100, unit: Some(SizeUnit::Mega) };
    assert_eq!(
        build_find_cmd(&[], &threshold, &strings(&["avi"])),
        Err(MvError::EmptySources)
    );
    assert_eq!(
        build_find_cmd(&strings(&["one"]), &threshold, &[]),
        Err(MvError::EmptyExtensions)
    );
    assert_eq!(build_find_cmd(&[], &threshold, &[]), Err(MvError::EmptySources));
}

#[test]
fn size_threshold_renders_for_find() {
    assert_eq!(SizeThreshold { magnitude: 100, unit: Some(SizeUnit::Mega) }.find_size_arg(), "+100M");
    assert_eq!(SizeThreshold { magnitude: 1234567, unit: None }.find_size_arg(), "+1234567");
    assert_eq!(SizeThreshold { magnitude: 3, unit: Some(SizeUnit::Peta) }.find_size_arg(), "+3P");
}

#[test]
fn find_output_one_path_per_non_empty_line() {
    assert_eq!(
        parse_find_output("a/one.avi\nb/two.mkv\n\nc.mp4\r\n"),
        strings(&["a/one.avi", "b/two.mkv", "c.mp4"])
    );
    assert_eq!(parse_find_output("x\nx"), strings(&["x", "x"]));
}

#[test]
fn find_output_empty_is_no_paths() {
    assert_eq!(parse_find_output(""), Vec::<String>::new());
    assert_eq!(parse_find_output("\n\n"), Vec::<String>::new());
}

#[test]
fn discovery_success_gives_paths() {
    let r = discovery_result(
        "find x",
        DiscoveryEvent::Exited { success: true, output: "a\nb\n".to_string() },
    );
    assert_eq!(r, Ok(strings(&["a", "b"])));
}

#[test]
fn discovery_failures_carry_command_and_output() {
    let r = discovery_result(
        "find x",
        DiscoveryEvent::Exited { success: false, output: "find: x: No such file".to_string() },
    );
    assert_eq!(
        r,
        Err(MvError::DiscoveryFailed {
            command: "find x".to_string(),
            output: "find: x: No such file".to_string(),
        })
    );
    let r = discovery_result("find x", DiscoveryEvent::SpawnFailed("no shell".to_string()));
    assert_eq!(
        r,
        Err(MvError::DiscoverySpawnFailed {
            command: "find x".to_string(),
            reason: "no shell".to_string(),
        })
    );
    let r = discovery_result("find x", DiscoveryEvent::TimedOut);
    assert_eq!(r, Err(MvError::DiscoveryTimedOut { command: "find x".to_string() }));
}

#[test]
fn vanished_file_stops_the_run() {
    let found = strings(&["/videos/a.avi", "/videos/gone.mkv", "/videos/b.mp4"]);
    let r = verify_found_files(found, &vec![true, false, true]);
    assert_eq!(r, Err(MvError::FilesVanished(strings(&["/videos/gone.mkv"]))));
}

#[test]
fn existing_files_pass_verification() {
    let found = strings(&["/videos/a.avi", "/videos/b.mp4"]);
    let r = verify_found_files(found.clone(), &vec![true, true]);
    assert_eq!(r, Ok(found));
    assert_eq!(verify_found_files(vec![], &vec![]), Ok(vec![]));
}

#[test]
fn partition_keeps_order() {
    let found = strings(&["a", "b", "c", "d"]);
    let (present, missing) = partition_existing(&found, &vec![false, true, false, true]);
    assert_eq!(present, strings(&["b", "d"]));
    assert_eq!(missing, strings(&["a", "c"]));
}

#[test]
fn destination_of_nested_file() {
    assert_eq!(destination_path("/tmp", "/temp/a_file"), Ok("/tmp/a_file".to_string()));
}

#[test]
fn destination_ignores_depth() {
    assert_eq!(destination_path("/dest", "a_file"), Ok("/dest/a_file".to_string()));
    assert_eq!(destination_path("/dest", "x/y/z/a_file"), Ok("/dest/a_file".to_string()));
    assert_eq!(destination_path("/dest/", "/x/a_file"), Ok("/dest/a_file".to_string()));
    assert_eq!(destination_path("", "/x/a_file"), Ok("a_file".to_string()));
}

#[test]
fn destination_needs_a_file_name() {
    assert_eq!(destination_path("/tmp", "/temp/"), Err(MvError::InvalidFileName("/temp/".to_string())));
    assert_eq!(destination_path("/tmp", ""), Err(MvError::InvalidFileName(String::new())));
    assert_eq!(destination_path("/tmp", "a/.."), Err(MvError::InvalidFileName("a/..".to_string())));
    assert_eq!(destination_path("/tmp", "."), Err(MvError::InvalidFileName(".".to_string())));
}

#[test]
fn plan_of_two_files() {
    let plan = plan_moves(&strings(&["/a/one.avi", "/b/c/two.mkv"]), "/flat").unwrap();
    assert_eq!(plan.len(), 2);
    assert_eq!(plan[0].from, "/a/one.avi");
    assert_eq!(plan[0].to, "/flat/one.avi");
    assert_eq!(plan[1].from, "/b/c/two.mkv");
    assert_eq!(plan[1].to, "/flat/two.mkv");
}

#[test]
fn plan_names_first_path_without_file_name() {
    let r = plan_moves(&strings(&["/a/one.avi", "/b/", "/c/.."]), "/flat");
    assert!(matches!(r, Err(MvError::InvalidFileName(p)) if p == "/b/"));
}

#[test]
fn plan_keeps_same_named_files() {
    let plan = plan_moves(&strings(&["/a/x.avi", "/b/x.avi"]), "/flat").unwrap();
    assert_eq!(plan[0].to, "/flat/x.avi");
    assert_eq!(plan[1].to, "/flat/x.avi");
}

#[test]
fn dry_run_reports_would_move_and_moves_nothing() {
    let plan = vec![entry("/a/one.avi", "/flat/one.avi"), entry("/b/two.mkv", "/flat/two.mkv")];
    let exec = MoveExecutor::new(plan, true);
    assert!(exec.is_finished());
    assert!(exec.next_move().is_none());
    assert!(!exec.needs_confirmation());
    let report = exec.finish();
    assert!(!report.cancelled);
    assert_eq!(report.outcomes.len(), 2);
    assert_eq!(report.outcomes[0].from, "/a/one.avi");
    assert_eq!(report.outcomes[0].to, "/flat/one.avi");
    assert_eq!(report.outcomes[0].status, MoveStatus::WouldMove);
    assert_eq!(report.outcomes[1].from, "/b/two.mkv");
    assert_eq!(report.outcomes[1].to, "/flat/two.mkv");
    assert_eq!(report.outcomes[1].status, MoveStatus::WouldMove);
}

#[test]
fn failed_move_is_reported_and_the_rest_go_on() {
    let plan = vec![
        entry("/a", "/f/a"),
        entry("/b", "/f/b"),
        entry("/c", "/f/c"),
    ];
    let mut exec = MoveExecutor::new(plan, false);
    assert!(exec.needs_confirmation());
    let first = exec.next_move().unwrap();
    assert_eq!(first.from, "/a");
    assert_eq!(first.to, "/f/a");
    exec.record(Ok(()));
    assert!(!exec.needs_confirmation());
    assert_eq!(exec.next_move().unwrap().from, "/b");
    exec.record(Err("permission denied".to_string()));
    assert_eq!(exec.next_move().unwrap().from, "/c");
    exec.record(Ok(()));
    assert!(exec.is_finished());
    assert!(exec.next_move().is_none());
    let report = exec.finish();
    assert!(!report.cancelled);
    assert_eq!(report.outcomes.len(), 3);
    assert_eq!(report.outcomes[0].status, MoveStatus::Moved);
    assert_eq!(report.outcomes[1].status, MoveStatus::Failed("permission denied".to_string()));
    assert_eq!(report.outcomes[1].to, "/f/b");
    assert_eq!(report.outcomes[2].status, MoveStatus::Moved);
}

#[test]
fn declined_confirmation_cancels_without_moves() {
    let mut exec = MoveExecutor::new(vec![entry("/a", "/f/a")], false);
    assert!(exec.needs_confirmation());
    exec.cancel();
    assert!(exec.is_finished());
    assert!(exec.next_move().is_none());
    let report = exec.finish();
    assert!(report.cancelled);
    assert!(report.outcomes.is_empty());
}

#[test]
fn empty_plan_needs_no_confirmation() {
    let exec = MoveExecutor::new(vec![], false);
    assert!(!exec.needs_confirmation());
    assert!(exec.is_finished());
    assert!(exec.finish().outcomes.is_empty());
}

#[test]
fn prepare_checks_in_order() {
    let sources = strings(&["one", "two"]);
    assert_eq!(
        prepare_discovery(&sources, "/dest", false, "bad", "avi"),
        Err(MvError::InvalidSize("bad".to_string()))
    );
    assert_eq!(
        prepare_discovery(&sources, "/dest", false, "100M", "avi"),
        Err(MvError::DestinationMissing("/dest".to_string()))
    );
    assert_eq!(
        prepare_discovery(&sources, "/dest", true, "100M", ""),
        Err(MvError::EmptyExtensions)
    );
    assert_eq!(prepare_discovery(&[], "/dest", true, "100M", "avi"), Err(MvError::EmptySources));
    assert_eq!(
        prepare_discovery(&sources, "/dest", true, "100M", "avi,mkv,mp4"),
        Ok("find \"one\" \"two\" -type f -size +100M -name \"*.avi\" -or -name \"*.mkv\" -or -name \"*.mp4\""
            .to_string())
    );
}
