use image_interlacer::cli::{get_args, ArgsError};
use image_interlacer::decision::{decide, Decision, ImageMetadata, Interlace};
use image_interlacer::dispatch::{
    check_paths, plan_jobs, pool_size, single_job, worker_count, ConfigError, PathKind, Setup,
};
use image_interlacer::gate::{interpret_reply, Reply, Verdict};
use image_interlacer::job::{
    pending_action, resolve_output, step, Action, Event, JobError, JobSpec, JobState, Outcome,
    RunConfig,
};
use image_interlacer::paths::{map_output_path, path_is_under, PathRelationError};
use image_interlacer::scan::{is_candidate, scan_candidates, select_candidates, WalkEntry};

fn args(v: &[&str]) -> Vec<String> {
    v.iter().map(|s| s.to_string()).collect()
}

fn config(allow_gif: bool, force: bool) -> RunConfig {
    RunConfig { allow_gif, remain_profile: false, force_overwrite: force, single_thread: false }
}

fn meta(format: &str, interlace: Interlace) -> ImageMetadata {
    ImageMetadata { format: format.to_string(), interlace }
}

fn entry(path: &str, is_dir: bool) -> WalkEntry {
    WalkEntry { path: path.to_string(), is_dir }
}

/// Feeds `events` to a fresh job and returns the actions and the final state.
fn drive(c: &RunConfig, events: Vec<Event>) -> (Vec<Action>, JobState) {
    let mut st = JobState::Identifying;
    let mut actions = Vec::new();
    for e in events.iter() {
        let (next, a) = step(c, st, e);
        st = next;
        actions.push(a);
    }
    (actions, st)
}

#[test]
fn args_input_only() {
    let a = get_args(&args(&["/img"])).unwrap();
    assert_eq!(a.input_path, "/img");
    assert_eq!(a.output_path, None);
    assert!(!a.single_thread && !a.force && !a.allow_gif && !a.remain_profile);
}

#[test]
fn args_all_options() {
    let a = get_args(&args(&["-s", "/in", "--output", "/out", "-f", "--allow-gif", "-r"])).unwrap();
    assert_eq!(a.input_path, "/in");
    assert_eq!(a.output_path, Some("/out".to_string()));
    assert!(a.single_thread && a.force && a.allow_gif && a.remain_profile);
    let b = get_args(&args(&["/in", "-o", "/o2", "--single-thread", "--force", "--remain-profile"]))
        .unwrap();
    assert_eq!(b.output_path, Some("/o2".to_string()));
    assert!(b.single_thread && b.force && !b.allow_gif && b.remain_profile);
}

#[test]
fn args_errors() {
    assert_eq!(get_args(&args(&[])).unwrap_err(), ArgsError::MissingInput);
    assert_eq!(get_args(&args(&["-f"])).unwrap_err(), ArgsError::MissingInput);
    assert_eq!(get_args(&args(&["/in", "-o"])).unwrap_err(), ArgsError::MissingValue);
    assert_eq!(get_args(&args(&["/in", "--help"])).unwrap_err(), ArgsError::HelpRequested);
    assert_eq!(get_args(&args(&["-h"])).unwrap_err(), ArgsError::HelpRequested);
    assert_eq!(get_args(&args(&["-V"])).unwrap_err(), ArgsError::VersionRequested);
    assert_eq!(get_args(&args(&["/in", "-x"])).unwrap_err(), ArgsError::UnknownOption);
    assert_eq!(get_args(&args(&["/a", "/b"])).unwrap_err(), ArgsError::UnexpectedArgument);
}

#[test]
fn decide_by_format_and_interlace() {
    assert_eq!(decide(&meta("JPEG", Interlace::No), false), Decision::Transform);
    assert_eq!(decide(&meta("PNG", Interlace::Undefined), false), Decision::Transform);
    assert_eq!(decide(&meta("PNG", Interlace::Line), true), Decision::Skip);
    assert_eq!(decide(&meta("JPEG", Interlace::Other), true), Decision::Skip);
    assert_eq!(decide(&meta("GIF", Interlace::No), false), Decision::Skip);
    assert_eq!(decide(&meta("GIF", Interlace::No), true), Decision::Transform);
    assert_eq!(decide(&meta("BMP", Interlace::No), true), Decision::Skip);
    assert_eq!(decide(&meta("jpeg", Interlace::No), true), Decision::Skip);
}

#[test]
fn replies() {
    let line = |s: &str| Reply::Line(s.to_string());
    assert_eq!(interpret_reply(&line("y")), Verdict::Accept);
    assert_eq!(interpret_reply(&line("Yes")), Verdict::Accept);
    assert_eq!(interpret_reply(&line("N")), Verdict::Decline);
    assert_eq!(interpret_reply(&line("no")), Verdict::Decline);
    assert_eq!(interpret_reply(&line("maybe")), Verdict::AskAgain);
    assert_eq!(interpret_reply(&line("")), Verdict::AskAgain);
    assert_eq!(interpret_reply(&line(" y")), Verdict::AskAgain);
    assert_eq!(interpret_reply(&Reply::End), Verdict::Decline);
    assert_eq!(interpret_reply(&Reply::Unreadable), Verdict::Decline);
}

#[test]
fn output_paths_mirror_input_tree() {
    assert_eq!(map_output_path("/in/a/b.png", "/in", Some("/out")).unwrap(), "/out/a/b.png");
    assert_eq!(map_output_path("in/c.jpg", "in", Some("/srv/o")).unwrap(), "/srv/o/c.jpg");
    assert_eq!(map_output_path("/in/a/b.png", "/in", None).unwrap(), "/in/a/b.png");
    assert_eq!(map_output_path("/other/b.png", "/in", Some("/out")), Err(PathRelationError));
    assert_eq!(map_output_path("/in/./b.png", "/in", Some("/out")), Err(PathRelationError));
    assert_eq!(map_output_path("/in", "/in", Some("/out")), Err(PathRelationError));
}

#[test]
fn file_system_root_as_root() {
    assert_eq!(map_output_path("/a/b.png", "/", Some("/out")).unwrap(), "/out/a/b.png");
    assert_eq!(map_output_path("/in/a/b.png", "/in", Some("/")).unwrap(), "/a/b.png");
    assert_eq!(map_output_path("/a.png", "/", Some("/")).unwrap(), "/a.png");
}

#[test]
fn output_round_trip() {
    let out = map_output_path("/data/in/x/y/z.png", "/data/in", Some("/data/out")).unwrap();
    assert!(path_is_under(&out, "/data/out"));
    let back = map_output_path(&out, "/data/out", Some("/data/in")).unwrap();
    assert_eq!(back, "/data/in/x/y/z.png");
}

#[test]
fn under_root() {
    assert!(path_is_under("/a/b", "/a"));
    assert!(path_is_under("a/b/c", "a/b"));
    assert!(!path_is_under("/ab/c", "/a"));
    assert!(!path_is_under("/a//b", "/a"));
    assert!(!path_is_under("/a/../b", "/a"));
    assert!(!path_is_under("/a/b/", "/a"));
    assert!(path_is_under("/b", "/"));
    assert!(path_is_under("/b/c.png", "/"));
    assert!(!path_is_under("//b", "/"));
    assert!(!path_is_under("/", "/"));
}

#[test]
fn candidate_extensions() {
    assert!(is_candidate("/x/a.png", false));
    assert!(is_candidate("/x/a.JPG", false));
    assert!(is_candidate("b.JpEg", false));
    assert!(!is_candidate("/x/a.gif", false));
    assert!(is_candidate("/x/a.GIF", true));
    assert!(!is_candidate("/x/.png", false));
    assert!(!is_candidate("/x/a.jpgx", false));
    assert!(!is_candidate("/x/dir.png/readme", false));
    assert!(!is_candidate("/x/noext", true));
}

#[test]
fn candidates_in_walk_order() {
    let entries = vec![
        entry("/d", true),
        entry("/d/a.png", false),
        entry("/d/b.gif", false),
        entry("/d/sub.jpg", true),
        entry("/d/c.jpg", false),
        entry("/d/notes.txt", false),
    ];
    assert_eq!(select_candidates(&entries, false), vec!["/d/a.png", "/d/c.jpg"]);
    assert_eq!(select_candidates(&entries, true), vec!["/d/a.png", "/d/b.gif", "/d/c.jpg"]);
    assert_eq!(select_candidates(&Vec::new(), true), Vec::<String>::new());
}

#[test]
fn single_file_root_ignores_extension() {
    assert_eq!(scan_candidates("/x/photo.bmp", true, &Vec::new(), false), vec!["/x/photo.bmp"]);
    let entries = vec![entry("/d/a.png", false)];
    assert_eq!(scan_candidates("/d", false, &entries, false), vec!["/d/a.png"]);
}

#[test]
fn startup_checks() {
    assert_eq!(check_paths(PathKind::Missing, None), Err(ConfigError::InputMissing));
    assert_eq!(check_paths(PathKind::Other, None), Err(ConfigError::InputNotFileOrDirectory));
    assert_eq!(check_paths(PathKind::Directory, None), Ok(Setup::Ready));
    assert_eq!(check_paths(PathKind::Directory, Some(PathKind::Directory)), Ok(Setup::Ready));
    assert_eq!(
        check_paths(PathKind::Directory, Some(PathKind::Missing)),
        Ok(Setup::CreateOutputDir)
    );
    assert_eq!(
        check_paths(PathKind::Directory, Some(PathKind::File)),
        Err(ConfigError::OutputNotDirectory)
    );
    assert_eq!(
        check_paths(PathKind::File, Some(PathKind::Directory)),
        Err(ConfigError::OutputIsDirectory)
    );
    assert_eq!(check_paths(PathKind::File, Some(PathKind::File)), Ok(Setup::Ready));
    assert_eq!(check_paths(PathKind::File, Some(PathKind::Missing)), Ok(Setup::Ready));
    assert_eq!(check_paths(PathKind::File, None), Ok(Setup::Ready));
    assert_eq!(
        check_paths(PathKind::File, Some(PathKind::Other)),
        Err(ConfigError::OutputNotFile)
    );
    assert_eq!(
        check_paths(PathKind::Directory, Some(PathKind::Other)),
        Err(ConfigError::OutputNotDirectory)
    );
}

#[test]
fn jobs_from_candidates() {
    let cands = args(&["/in/a.png", "/in/s/b.jpg"]);
    let jobs = plan_jobs(&cands, "/in", Some("/out")).unwrap();
    assert_eq!(jobs.len(), 2);
    assert_eq!(jobs[0].input_path, "/in/a.png");
    assert_eq!(jobs[0].output_path, Some("/out/a.png".to_string()));
    assert_eq!(jobs[1].output_path, Some("/out/s/b.jpg".to_string()));
    let in_place = plan_jobs(&cands, "/in", None).unwrap();
    assert_eq!(in_place[1].output_path, None);
    let bad = args(&["/in/a.png", "/elsewhere/b.png"]);
    assert!(plan_jobs(&bad, "/in", Some("/out")).is_err());
    assert!(plan_jobs(&bad, "/in", None).is_ok());
}

#[test]
fn single_file_job() {
    let j = single_job("/x/a.png", Some("/y/b.png"));
    assert_eq!(j.input_path, "/x/a.png");
    assert_eq!(resolve_output(&j), "/y/b.png");
    let k = single_job("/x/a.png", None);
    assert_eq!(k.output_path, None);
    assert_eq!(resolve_output(&k), "/x/a.png");
}

#[test]
fn pool_sizes() {
    assert_eq!(pool_size(0), 1);
    assert_eq!(pool_size(1), 2);
    assert_eq!(pool_size(4), 8);
    assert_eq!(pool_size(usize::MAX), usize::MAX);
    assert!(worker_count() >= 2);
    assert_eq!(worker_count() % 2, 0);
}

#[test]
fn full_job_writes_and_reports() {
    let c = RunConfig { allow_gif: false, remain_profile: true, force_overwrite: false, single_thread: true };
    let (actions, st) = drive(
        &c,
        vec![
            Event::Identified(meta("PNG", Interlace::No)),
            Event::Decoded,
            Event::Prepared,
            Event::OutputExists(false),
            Event::ParentMade,
            Event::Written,
            Event::Reported,
        ],
    );
    assert_eq!(
        actions,
        vec![
            Action::Decode,
            Action::Prepare { strip_profiles: false },
            Action::CheckExists,
            Action::MakeParent,
            Action::EncodeWrite,
            Action::Report,
            Action::Stop,
        ]
    );
    assert_eq!(st, JobState::Finished(Outcome::Written));
}

#[test]
fn job_failures() {
    let c = config(false, false);
    let (_, st) = drive(&c, vec![Event::IdentifyFailed]);
    assert_eq!(st, JobState::Failed(JobError::IdentifyError));
    let (_, st) = drive(&c, vec![Event::Identified(meta("JPEG", Interlace::No)), Event::DecodeFailed]);
    assert_eq!(st, JobState::Failed(JobError::IdentifyError));
    let (a, st) = drive(
        &c,
        vec![Event::Identified(meta("JPEG", Interlace::No)), Event::Decoded, Event::PrepareFailed],
    );
    assert_eq!(a[1], Action::Prepare { strip_profiles: true });
    assert_eq!(st, JobState::Failed(JobError::TransformError));
    let base = vec![
        Event::Identified(meta("JPEG", Interlace::No)),
        Event::Decoded,
        Event::Prepared,
        Event::OutputExists(false),
    ];
    let mut e = base.clone();
    e.push(Event::ParentFailed);
    assert_eq!(drive(&c, e).1, JobState::Failed(JobError::IoError));
    let mut e = base.clone();
    e.push(Event::ParentMade);
    e.push(Event::EncodeFailed);
    assert_eq!(drive(&c, e).1, JobState::Failed(JobError::TransformError));
    let mut e = base.clone();
    e.push(Event::ParentMade);
    e.push(Event::WriteFailed);
    assert_eq!(drive(&c, e).1, JobState::Failed(JobError::IoError));
}

#[test]
fn unexpected_event_repeats_pending_action() {
    let c = config(false, false);
    let (st, a) = step(&c, JobState::Checking, &Event::Decoded);
    assert_eq!((st, a), (JobState::Checking, Action::CheckExists));
    assert_eq!(pending_action(&c, JobState::Identifying), Action::Identify);
    let done = JobState::Finished(Outcome::Skipped);
    assert_eq!(step(&c, done, &Event::Written), (done, Action::Stop));
}

#[test]
fn interlaced_file_only_identified() {
    for c in [config(false, false), config(true, true)] {
        let (actions, st) = drive(&c, vec![Event::Identified(meta("JPEG", Interlace::Line)), Event::Written]);
        assert_eq!(actions, vec![Action::Stop, Action::Stop]);
        assert_eq!(st, JobState::Finished(Outcome::Skipped));
    }
}

#[test]
fn gif_untouched_without_gif_support() {
    assert!(!is_candidate("/d/b.gif", false));
    let (actions, st) = drive(&config(false, false), vec![Event::Identified(meta("GIF", Interlace::No))]);
    assert_eq!(actions, vec![Action::Stop]);
    assert_eq!(st, JobState::Finished(Outcome::Skipped));
}

#[test]
fn force_overwrites_without_prompt() {
    let c = config(false, true);
    let (actions, st) = drive(
        &c,
        vec![
            Event::Identified(meta("JPEG", Interlace::No)),
            Event::Decoded,
            Event::Prepared,
            Event::OutputExists(true),
            Event::Written,
            Event::Reported,
        ],
    );
    assert!(!actions.contains(&Action::Prompt));
    assert_eq!(actions[3], Action::EncodeWrite);
    assert_eq!(st, JobState::Finished(Outcome::Written));
}

#[test]
fn prompt_repeats_until_clear_answer() {
    let c = config(false, false);
    let (actions, st) = drive(
        &c,
        vec![
            Event::Identified(meta("PNG", Interlace::No)),
            Event::Decoded,
            Event::Prepared,
            Event::OutputExists(true),
            Event::Answered(Reply::Line("what".to_string())),
            Event::Answered(Reply::Line("Y".to_string())),
            Event::Written,
            Event::Reported,
        ],
    );
    assert_eq!(actions[3], Action::Prompt);
    assert_eq!(actions[4], Action::Prompt);
    assert_eq!(actions[5], Action::EncodeWrite);
    assert_eq!(st, JobState::Finished(Outcome::Written));
}

#[test]
fn end_of_input_declines() {
    let c = config(false, false);
    let (actions, st) = drive(
        &c,
        vec![
            Event::Identified(meta("PNG", Interlace::No)),
            Event::Decoded,
            Event::Prepared,
            Event::OutputExists(true),
            Event::Answered(Reply::End),
        ],
    );
    assert_eq!(actions[4], Action::Stop);
    assert_eq!(st, JobState::Finished(Outcome::Skipped));
}

#[test]
fn directory_scenario_in_place_forced() {
    let entries = vec![
        entry("/d", true),
        entry("/d/a.png", false),
        entry("/d/b.gif", false),
        entry("/d/c.jpg", false),
    ];
    let c = config(false, true);
    let cands = scan_candidates("/d", false, &entries, c.allow_gif);
    assert_eq!(cands, vec!["/d/a.png", "/d/c.jpg"]);
    let jobs = plan_jobs(&cands, "/d", None).unwrap();
    let mut reports = Vec::new();
    for job in jobs.iter() {
        let interlace = if job.input_path.ends_with("c.jpg") { Interlace::Line } else { Interlace::No };
        let format = if job.input_path.ends_with(".png") { "PNG" } else { "JPEG" };
        let events = vec![
            Event::Identified(meta(format, interlace)),
            Event::Decoded,
            Event::Prepared,
            Event::OutputExists(true),
            Event::Written,
            Event::Reported,
        ];
        let (actions, _) = drive(&c, events);
        if actions.contains(&Action::Report) {
            reports.push(resolve_output(job));
        }
    }
    assert_eq!(reports, vec!["/d/a.png"]);
}

#[test]
fn single_file_scenario_declined() {
    let args = get_args(&args(&["/x/a.png", "-o", "/y/a.png"])).unwrap();
    assert!(!args.force);
    let job = single_job(&args.input_path, args.output_path.as_deref());
    let c = config(args.allow_gif, args.force);
    let (actions, st) = drive(
        &c,
        vec![
            Event::Identified(meta("PNG", Interlace::No)),
            Event::Decoded,
            Event::Prepared,
            Event::OutputExists(true),
            Event::Answered(Reply::Line("n".to_string())),
        ],
    );
    assert_eq!(resolve_output(&job), "/y/a.png");
    assert!(!actions.contains(&Action::EncodeWrite));
    assert!(!actions.contains(&Action::Report));
    assert_eq!(st, JobState::Finished(Outcome::Skipped));
}

#[test]
fn args_output_forms() {
    for form in [
        vec!["x", "--output-path", "y"],
        vec!["x", "--output", "y"],
        vec!["x", "--output=y"],
        vec!["x", "--output-path=y"],
        vec!["x", "-oy"],
        vec!["x", "-o=y"],
        vec!["-o", "y", "x"],
        vec!["x", "-o", "-"],
    ] {
        let a = get_args(&args(&form)).unwrap();
        assert_eq!(a.input_path, "x");
        let expected = if form.contains(&"-") { "-" } else { "y" };
        assert_eq!(a.output_path, Some(expected.to_string()));
    }
    let a = get_args(&args(&["x", "--output=a=b"])).unwrap();
    assert_eq!(a.output_path, Some("a=b".to_string()));
}

#[test]
fn args_grouped_switches() {
    let a = get_args(&args(&["-sfr", "x"])).unwrap();
    assert!(a.single_thread && a.force && a.remain_profile && !a.allow_gif);
    let b = get_args(&args(&["-fo", "out", "x"])).unwrap();
    assert!(b.force);
    assert_eq!(b.output_path, Some("out".to_string()));
    let c = get_args(&args(&["-sfoout", "x"])).unwrap();
    assert!(c.single_thread && c.force);
    assert_eq!(c.output_path, Some("out".to_string()));
    assert_eq!(get_args(&args(&["-sh", "x"])).unwrap_err(), ArgsError::HelpRequested);
    assert_eq!(get_args(&args(&["-sx", "x"])).unwrap_err(), ArgsError::UnknownOption);
}

#[test]
fn args_end_of_options() {
    let a = get_args(&args(&["-f", "--", "-x"])).unwrap();
    assert_eq!(a.input_path, "-x");
    assert!(a.force);
    let b = get_args(&args(&["--", "--force"])).unwrap();
    assert_eq!(b.input_path, "--force");
    assert!(!b.force);
    assert_eq!(get_args(&args(&["--", "a", "b"])).unwrap_err(), ArgsError::UnexpectedArgument);
    assert_eq!(get_args(&args(&["--"])).unwrap_err(), ArgsError::MissingInput);
}

#[test]
fn args_option_is_no_value() {
    assert_eq!(get_args(&args(&["in", "-o", "-x"])).unwrap_err(), ArgsError::MissingValue);
    assert_eq!(get_args(&args(&["/in", "-o", "-h"])).unwrap_err(), ArgsError::MissingValue);
    assert_eq!(get_args(&args(&["/in", "--output", "--force"])).unwrap_err(), ArgsError::MissingValue);
    assert_eq!(get_args(&args(&["/in", "--output"])).unwrap_err(), ArgsError::MissingValue);
}

#[test]
fn args_repeated_and_misused() {
    assert_eq!(get_args(&args(&["x", "-o", "a", "-o", "b"])).unwrap_err(), ArgsError::RepeatedOption);
    assert_eq!(get_args(&args(&["x", "-f", "--force"])).unwrap_err(), ArgsError::RepeatedOption);
    assert_eq!(get_args(&args(&["x", "-ss"])).unwrap_err(), ArgsError::RepeatedOption);
    assert_eq!(get_args(&args(&["x", "--allow-gif", "--allow-gif"])).unwrap_err(), ArgsError::RepeatedOption);
    assert_eq!(get_args(&args(&["x", "--force=yes"])).unwrap_err(), ArgsError::UnexpectedArgument);
    assert_eq!(get_args(&args(&["x", "--output="])).unwrap_err(), ArgsError::EmptyValue);
    assert_eq!(get_args(&args(&["x", "-o", ""])).unwrap_err(), ArgsError::EmptyValue);
    assert_eq!(get_args(&args(&[""])).unwrap_err(), ArgsError::EmptyValue);
    assert_eq!(get_args(&args(&["x", "--out", "y"])).unwrap_err(), ArgsError::UnknownOption);
    assert_eq!(get_args(&args(&["x", "--version"])).unwrap_err(), ArgsError::VersionRequested);
}
