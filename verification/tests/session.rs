use entr::error::EntrError;
use entr::event::{ChangeEvent, ChangeKind, ClearOutcome, Delivery};
use entr::session::{Entr, Step};

/// What a session asked for.
#[derive(Debug, Clone, PartialEq, Eq)]
enum Asked {
    Shell,
    Input,
    Register(String, bool),
    Clear,
    Spawn(String, Vec<String>),
    Receive,
    Exit(EntrError),
}

/// A world that answers a session from a script.
struct World {
    shell: Option<String>,
    input: Option<String>,
    refused: Option<String>,
    clear: ClearOutcome,
    spawns: bool,
    deliveries: Vec<Delivery>,
}

fn world(input: &str) -> World {
    World {
        shell: None,
        input: Some(input.to_string()),
        refused: None,
        clear: ClearOutcome::Exited(Some(0)),
        spawns: true,
        deliveries: Vec::new(),
    }
}

fn words(list: &[&str]) -> Vec<String> {
    list.iter().map(|word| word.to_string()).collect()
}

fn entr(utility: &[&str]) -> Entr {
    Entr { clear: false, postpone: false, recursive: false, use_shell: false, utility: words(utility) }
}

fn change(kind: ChangeKind, path: &str) -> Delivery {
    Delivery::Event(ChangeEvent { kind, paths: vec![path.to_string()] })
}

/// Runs a session in a world until it fails, or turns to the channel when
/// nothing is left to deliver. Returns what it asked for, in order.
fn drive(entr: Entr, world: World) -> Vec<Asked> {
    let mut asked = Vec::new();
    let mut deliveries = world.deliveries.into_iter();
    let mut step = entr.run();
    loop {
        step = match step {
            Step::LookupShell(lookup) => {
                assert_eq!(lookup.variable(), "SHELL");
                asked.push(Asked::Shell);
                lookup.resolve(world.shell.clone())
            }
            Step::ReadInput(read) => {
                asked.push(Asked::Input);
                read.resolve(world.input.clone())
            }
            Step::Register(registration) => {
                let path = registration.path().clone();
                asked.push(Asked::Register(path.clone(), registration.recursive()));
                registration.resolve(world.refused.as_ref() != Some(&path))
            }
            Step::Clear(clear) => {
                assert_eq!(clear.program(), "clear");
                asked.push(Asked::Clear);
                clear.resolve(world.clear)
            }
            Step::Spawn(launch) => {
                asked.push(Asked::Spawn(launch.program().clone(), launch.arguments().to_vec()));
                launch.resolve(world.spawns)
            }
            Step::Receive(listen) => {
                asked.push(Asked::Receive);
                match deliveries.next() {
                    Some(delivery) => listen.resolve(delivery),
                    None => return asked,
                }
            }
            Step::Exit(error) => {
                asked.push(Asked::Exit(error));
                return asked;
            }
        }
    }
}

fn spawns(asked: &[Asked]) -> usize {
    asked.iter().filter(|a| matches!(a, Asked::Spawn(_, _))).count()
}

fn make() -> Asked {
    Asked::Spawn("make".to_string(), Vec::new())
}

#[test]
fn a_session_reads_registers_runs_and_listens() {
    let asked = drive(entr(&["make"]), world("a\nb\n"));
    assert_eq!(asked, vec![
        Asked::Input,
        Asked::Register("a".to_string(), false),
        Asked::Register("b".to_string(), false),
        make(),
        Asked::Receive,
    ]);
}

#[test]
fn the_first_run_comes_before_the_first_event() {
    let mut w = world("a\n");
    w.deliveries = vec![change(ChangeKind::Create, "a")];
    let asked = drive(entr(&["make"]), w);
    let first_receive = asked.iter().position(|a| *a == Asked::Receive).unwrap();
    assert_eq!(spawns(&asked[..first_receive]), 1);
    assert_eq!(spawns(&asked), 1);
}

#[test]
fn a_postponed_session_runs_nothing_before_a_modification() {
    let mut e = entr(&["make"]);
    e.postpone = true;
    let mut w = world("a\n");
    w.deliveries = vec![
        change(ChangeKind::Create, "a"),
        change(ChangeKind::Other, "a"),
        change(ChangeKind::Modify, "a"),
    ];
    let asked = drive(e, w);
    assert_eq!(asked, vec![
        Asked::Input,
        Asked::Register("a".to_string(), false),
        Asked::Receive,
        Asked::Receive,
        Asked::Receive,
        make(),
        Asked::Receive,
    ]);
}

#[test]
fn a_modification_runs_the_utility_once() {
    let mut e = entr(&["make"]);
    e.postpone = true;
    let mut w = world("a\n");
    w.deliveries = vec![change(ChangeKind::Modify, "a")];
    let asked = drive(e, w);
    assert_eq!(spawns(&asked), 1);
}

#[test]
fn other_changes_run_nothing() {
    for kind in [ChangeKind::Create, ChangeKind::Remove, ChangeKind::Rename, ChangeKind::Other] {
        let mut e = entr(&["make"]);
        e.postpone = true;
        let mut w = world("a\n");
        w.deliveries = vec![change(kind, "a")];
        let asked = drive(e, w);
        assert_eq!(spawns(&asked), 0);
        assert_eq!(asked.last(), Some(&Asked::Receive));
    }
}

#[test]
fn three_modifications_in_a_row_run_the_utility_three_times() {
    let mut e = entr(&["make"]);
    e.postpone = true;
    let mut w = world("a\n");
    w.deliveries = vec![
        change(ChangeKind::Modify, "a"),
        change(ChangeKind::Modify, "a"),
        change(ChangeKind::Modify, "a"),
    ];
    let asked = drive(e, w);
    assert_eq!(asked, vec![
        Asked::Input,
        Asked::Register("a".to_string(), false),
        Asked::Receive,
        make(),
        Asked::Receive,
        make(),
        Asked::Receive,
        make(),
        Asked::Receive,
    ]);
}

#[test]
fn with_the_first_run_three_modifications_make_four_runs() {
    let mut w = world("a\n");
    w.deliveries = vec![
        change(ChangeKind::Modify, "a"),
        change(ChangeKind::Remove, "a"),
        change(ChangeKind::Modify, "a"),
        change(ChangeKind::Modify, "a"),
    ];
    let asked = drive(entr(&["make"]), w);
    assert_eq!(spawns(&asked), 4);
}

#[test]
fn a_refused_path_ends_the_session_before_the_loop() {
    let mut w = world("a\nmissing\nb\n");
    w.refused = Some("missing".to_string());
    w.deliveries = vec![change(ChangeKind::Modify, "a")];
    let asked = drive(entr(&["make"]), w);
    assert_eq!(asked, vec![
        Asked::Input,
        Asked::Register("a".to_string(), false),
        Asked::Register("missing".to_string(), false),
        Asked::Exit(EntrError::WatchRegistrationFailed("missing".to_string())),
    ]);
}

#[test]
fn a_refused_first_path_ends_the_session_at_once() {
    let mut w = world("missing\n");
    w.refused = Some("missing".to_string());
    let asked = drive(entr(&["make"]), w);
    assert_eq!(asked, vec![
        Asked::Input,
        Asked::Register("missing".to_string(), false),
        Asked::Exit(EntrError::WatchRegistrationFailed("missing".to_string())),
    ]);
}

#[test]
fn blank_input_ends_the_session_before_any_registration() {
    for input in ["", "\n", "  \n\t\n"] {
        let asked = drive(entr(&["make"]), world(input));
        assert_eq!(asked, vec![Asked::Input, Asked::Exit(EntrError::NoFilesToWatch)]);
    }
}

#[test]
fn input_that_cannot_be_read_ends_the_session() {
    let mut w = world("");
    w.input = None;
    let asked = drive(entr(&["make"]), w);
    assert_eq!(asked, vec![Asked::Input, Asked::Exit(EntrError::ReadInputFailed)]);
}

#[test]
fn shell_mode_asks_for_the_shell_first() {
    let mut e = entr(&["make test"]);
    e.use_shell = true;
    let mut w = world("a\n");
    w.shell = Some("/bin/bash".to_string());
    let asked = drive(e, w);
    assert_eq!(asked, vec![
        Asked::Shell,
        Asked::Input,
        Asked::Register("a".to_string(), false),
        Asked::Spawn("/bin/bash".to_string(), words(&["-c", "make test"])),
        Asked::Receive,
    ]);
}

#[test]
fn shell_mode_falls_back_on_sh() {
    let mut e = entr(&["make", "test"]);
    e.use_shell = true;
    let asked = drive(e, world("a\n"));
    assert_eq!(asked[3], Asked::Spawn("/bin/sh".to_string(), words(&["-c", "make", "test"])));
}

#[test]
fn shell_mode_needs_no_utility() {
    let mut e = entr(&[]);
    e.use_shell = true;
    let asked = drive(e, world("a\n"));
    assert_eq!(asked[3], Asked::Spawn("/bin/sh".to_string(), words(&["-c"])));
}

#[test]
fn without_shell_mode_the_environment_is_left_alone() {
    let mut w = world("a\n");
    w.shell = Some("/bin/bash".to_string());
    let asked = drive(entr(&["make"]), w);
    assert!(!asked.contains(&Asked::Shell));
    assert_eq!(asked[2], make());
}

#[test]
fn the_first_word_is_the_executable_and_the_rest_its_arguments() {
    let asked = drive(entr(&["cargo", "test", "--", "--nocapture"]), world("a\n"));
    assert_eq!(asked[2], Asked::Spawn("cargo".to_string(), words(&["test", "--", "--nocapture"])));
}

#[test]
fn the_screen_is_cleared_before_each_run() {
    let mut e = entr(&["make"]);
    e.clear = true;
    let mut w = world("a\n");
    w.deliveries = vec![change(ChangeKind::Modify, "a")];
    let asked = drive(e, w);
    assert_eq!(asked, vec![
        Asked::Input,
        Asked::Register("a".to_string(), false),
        Asked::Clear,
        make(),
        Asked::Receive,
        Asked::Clear,
        make(),
        Asked::Receive,
    ]);
}

#[test]
fn a_screen_that_cannot_be_cleared_ends_the_session() {
    for outcome in [
        ClearOutcome::NotRun,
        ClearOutcome::Exited(Some(1)),
        ClearOutcome::Exited(Some(-1)),
        ClearOutcome::Exited(None),
    ] {
        let mut e = entr(&["make"]);
        e.clear = true;
        let mut w = world("a\n");
        w.clear = outcome;
        let asked = drive(e, w);
        assert_eq!(asked, vec![
            Asked::Input,
            Asked::Register("a".to_string(), false),
            Asked::Clear,
            Asked::Exit(EntrError::ClearScreenFailed),
        ]);
    }
}

#[test]
fn a_utility_that_does_not_start_ends_the_session() {
    let mut w = world("a\n");
    w.spawns = false;
    let asked = drive(entr(&["no-such-program", "x"]), w);
    assert_eq!(asked, vec![
        Asked::Input,
        Asked::Register("a".to_string(), false),
        Asked::Spawn("no-such-program".to_string(), words(&["x"])),
        Asked::Exit(EntrError::UtilitySpawnFailed("no-such-program".to_string())),
    ]);
}

#[test]
fn in_shell_mode_the_shell_is_the_executable_that_did_not_start() {
    let mut e = entr(&["make"]);
    e.use_shell = true;
    let mut w = world("a\n");
    w.shell = Some("/no/shell".to_string());
    w.spawns = false;
    let asked = drive(e, w);
    assert_eq!(asked.last(), Some(&Asked::Exit(EntrError::UtilitySpawnFailed("/no/shell".to_string()))));
}

#[test]
fn an_error_from_the_monitor_ends_the_session() {
    let mut w = world("a\n");
    w.deliveries = vec![change(ChangeKind::Modify, "a"), Delivery::MonitorError, change(ChangeKind::Modify, "a")];
    let asked = drive(entr(&["make"]), w);
    assert_eq!(asked, vec![
        Asked::Input,
        Asked::Register("a".to_string(), false),
        make(),
        Asked::Receive,
        make(),
        Asked::Receive,
        Asked::Exit(EntrError::EventObservationFailed),
    ]);
}

#[test]
fn a_closed_channel_ends_the_session() {
    let mut e = entr(&["make"]);
    e.postpone = true;
    let mut w = world("a\n");
    w.deliveries = vec![Delivery::Disconnected];
    let asked = drive(e, w);
    assert_eq!(asked, vec![
        Asked::Input,
        Asked::Register("a".to_string(), false),
        Asked::Receive,
        Asked::Exit(EntrError::WatchChannelBroken),
    ]);
}

#[test]
fn the_recursive_flag_goes_with_every_path() {
    let mut e = entr(&["make"]);
    e.recursive = true;
    let asked = drive(e, world("src\ntests\n"));
    assert_eq!(asked[1], Asked::Register("src".to_string(), true));
    assert_eq!(asked[2], Asked::Register("tests".to_string(), true));
}

#[test]
fn the_paths_are_registered_trimmed_and_in_order() {
    let asked = drive(entr(&["make"]), world("  b \n\n a\r\n"));
    assert_eq!(asked[1], Asked::Register("b".to_string(), false));
    assert_eq!(asked[2], Asked::Register("a".to_string(), false));
    assert_eq!(asked[3], make());
}

#[test]
fn a_change_is_judged_by_its_kind_not_by_its_paths() {
    let mut e = entr(&["make"]);
    e.postpone = true;
    let mut w = world("a\n");
    w.deliveries = vec![
        Delivery::Event(ChangeEvent { kind: ChangeKind::Modify, paths: Vec::new() }),
        Delivery::Event(ChangeEvent { kind: ChangeKind::Modify, paths: words(&["x", "y"]) }),
        Delivery::Event(ChangeEvent { kind: ChangeKind::Remove, paths: words(&["a"]) }),
    ];
    let asked = drive(e, w);
    assert_eq!(spawns(&asked), 2);
}

#[test]
fn only_a_clean_exit_clears_the_screen() {
    assert!(ClearOutcome::Exited(Some(0)).cleared());
    assert!(!ClearOutcome::Exited(Some(2)).cleared());
    assert!(!ClearOutcome::Exited(None).cleared());
    assert!(!ClearOutcome::NotRun.cleared());
}

#[test]
fn only_a_modification_is_a_trigger() {
    assert!(ChangeKind::Modify.is_trigger());
    assert!(!ChangeKind::Create.is_trigger());
    assert!(!ChangeKind::Remove.is_trigger());
    assert!(!ChangeKind::Rename.is_trigger());
    assert!(!ChangeKind::Other.is_trigger());
}
