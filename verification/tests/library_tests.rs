use oxidizr_arch::experiments::UutilsExperiment;
use oxidizr_arch::experiments::sudors::SudoRsExperiment;
use oxidizr_arch::utils::test_utils::MockWorker;
use oxidizr_arch::cli::handler::{
    check_line, confirmed, contains_string, needs_confirmation, needs_root, select_experiments, target_line,
    Operation,
};
use oxidizr_arch::cli::{list_lines, Cli, Commands};
use oxidizr_arch::coreutil::CoreUtilsImpl;
use oxidizr_arch::error::Error;
use oxidizr_arch::experiments::coreutils::{filter_preserved, is_preserved};
use oxidizr_arch::experiments::{all_experiments, repo_gate, repo_probe_gate, Experiment};
use oxidizr_arch::logging::init::{parse_u8, verbosity_level, AuditMakeWriter, LogLevel};
use oxidizr_arch::logging::provenance::ProvenanceLogger;
use oxidizr_arch::package_manager::{PacmanManager, PmAction, PmEvent};
use oxidizr_arch::switchyard::adapters::{FactFields, FactValue, ProductAudit, ProductFacts};
use oxidizr_arch::switchyard::{AuditSink, FactsEmitter};
use oxidizr_arch::symlink::ops::{restore_plan, symlink_plan, symlink_precheck, tmp_link_path, RestorePlan, SymlinkPlan, TargetState};
use oxidizr_arch::system::worker::{lock_wait_step, parse_os_release, LockStep};
use oxidizr_arch::utils::audit::{format_operation_entry, format_provenance_entry, json_escape, user_log_path};
use oxidizr_arch::utils::worker::{backup_path, is_valid_package_name};
use oxidizr_arch::checks::Distribution;
use oxidizr_arch::utils::vecs_eq;
use oxidizr_arch::experiments::checksums::ChecksumsExperiment;
use oxidizr_arch::utils::worker::Worker;
use oxidizr_arch::utils::command::Command;
use oxidizr_arch::utils::session::Session;

fn names(v: &[Experiment]) -> Vec<String> {
    v.iter().map(|e| e.name().to_string()).collect()
}

fn args_of(c: &Command) -> Vec<&str> {
    c.args.iter().map(|s| s.as_str()).collect()
}

#[test]
fn error_messages_and_exit_codes() {
    let e = Error::Incompatible("debian".into());
    assert_eq!(e.message(), "Unsupported distribution or release: debian");
    assert_eq!(e.exit_code(), 10);
    assert_eq!(Error::NothingToLink("x".into()).exit_code(), 20);
    assert_eq!(Error::RestoreBackupMissing("/usr/bin/ls".into()).exit_code(), 30);
    let g = Error::RepoGateFailed { package: "sudo-rs".into(), details: "extra repo unavailable".into() };
    assert_eq!(g.exit_code(), 40);
    assert_eq!(g.message(), "repo gate failed for 'sudo-rs': extra repo unavailable");
    assert_eq!(Error::Other("boom".into()).exit_code(), 1);
    assert_eq!(Error::ExecutionFailed("x".into()).message(), "Execution failed: x");
}

#[test]
fn backup_sits_beside_target_with_hidden_name() {
    assert_eq!(backup_path("/usr/bin/ls"), "/usr/bin/.ls.oxidizr.bak");
    assert_eq!(backup_path("/usr/bin/ls/"), "/usr/bin/.ls.oxidizr.bak");
    assert_eq!(backup_path("ls"), ".ls.oxidizr.bak");
    assert_eq!(backup_path("/"), "./.backup.oxidizr.bak");
    assert_eq!(tmp_link_path("/usr/bin/ls"), "/usr/bin/.ls.oxidizr.tmp");
}

#[test]
fn swap_plans_follow_what_is_found() {
    let file = TargetState { existed: true, is_symlink: false, current_dest: None, points_to_source: false };
    match symlink_plan("/usr/bin/date", false, &file) {
        SymlinkPlan::BackupAndLink { backup } => assert_eq!(backup, "/usr/bin/.date.oxidizr.bak"),
        _ => panic!("expected a backup and link"),
    }
    let wrong = TargetState {
        existed: true,
        is_symlink: true,
        current_dest: Some("/usr/lib/old/date".into()),
        points_to_source: false,
    };
    match symlink_plan("/usr/bin/date", false, &wrong) {
        SymlinkPlan::ReplaceLink { backup, backup_dest } => {
            assert_eq!(backup, "/usr/bin/.date.oxidizr.bak");
            assert_eq!(backup_dest.as_deref(), Some("/usr/lib/old/date"));
        }
        _ => panic!("expected a link replacement"),
    }
    // Re-running after a swap changes nothing.
    let right = TargetState {
        existed: true,
        is_symlink: true,
        current_dest: Some("/usr/lib/uutils/coreutils/date".into()),
        points_to_source: true,
    };
    assert!(matches!(symlink_plan("/usr/bin/date", false, &right), SymlinkPlan::AlreadyCorrect));
    let absent = TargetState { existed: false, is_symlink: false, current_dest: None, points_to_source: false };
    assert!(matches!(symlink_plan("/usr/bin/date", false, &absent), SymlinkPlan::Link));
    // Dry runs change nothing.
    assert!(matches!(symlink_plan("/usr/bin/date", true, &file), SymlinkPlan::DryRun));
}

#[test]
fn restore_reads_the_backup_the_swap_wrote() {
    let file = TargetState { existed: true, is_symlink: false, current_dest: None, points_to_source: false };
    let written = match symlink_plan("/usr/bin/date", false, &file) {
        SymlinkPlan::BackupAndLink { backup } => backup,
        _ => panic!("expected a backup"),
    };
    match restore_plan("/usr/bin/date", true, false, false) {
        Ok(RestorePlan::Restore { backup }) => assert_eq!(backup, written),
        _ => panic!("expected a restore"),
    }
    assert!(matches!(restore_plan("/usr/bin/date", true, true, false), Ok(RestorePlan::DryRun { .. })));
    assert!(matches!(restore_plan("/usr/bin/date", false, false, true), Ok(RestorePlan::LeaveAsIs)));
    match restore_plan("/usr/bin/date", false, false, false) {
        Err(Error::RestoreBackupMissing(t)) => assert_eq!(t, "/usr/bin/date"),
        _ => panic!("expected a missing backup"),
    }
}

#[test]
fn precheck_same_paths_and_traversal() {
    assert!(matches!(symlink_precheck("/usr/bin/ls", "/usr/bin/ls"), Ok(false)));
    assert!(matches!(symlink_precheck("/usr/bin/../ls", "/usr/bin/ls"), Err(Error::ExecutionFailed(_))));
    assert!(matches!(symlink_precheck("/usr/lib/uutils/coreutils/ls", "/usr/bin/ls"), Ok(true)));
}

#[test]
fn unicode_letters_are_alphanumeric_in_package_names() {
    // Goes through char::is_alphanumeric: non-ASCII letters count.
    assert!(is_valid_package_name("caf\u{e9}"));
    assert!(!is_valid_package_name("caf\u{e9} x"));
}

#[test]
fn selection_keeps_registry_order() {
    let all = select_experiments(true, &vec![], &None).unwrap();
    assert_eq!(names(&all), vec!["findutils", "coreutils", "sudo-rs", "checksums"]);
    let some = select_experiments(false, &vec!["sudo-rs".into(), "coreutils".into()], &None).unwrap();
    assert_eq!(names(&some), vec!["coreutils", "sudo-rs"]);
    let single = select_experiments(false, &vec![], &Some("findutils".into())).unwrap();
    assert_eq!(names(&single), vec!["findutils"]);
    match select_experiments(false, &vec![], &None) {
        Err(Error::Other(m)) => assert_eq!(m, "no experiments selected"),
        _ => panic!("expected no selection"),
    }
    match select_experiments(false, &vec!["grep".into()], &None) {
        Err(Error::Other(m)) => assert_eq!(m, "no experiments matched selection"),
        _ => panic!("expected no match"),
    }
    assert_eq!(names(&all_experiments()), vec!["findutils", "coreutils", "sudo-rs", "checksums"]);
    assert!(contains_string(&vec!["a".into(), "b".into()], "b"));
    assert!(!contains_string(&vec!["a".into()], "c"));
}

#[test]
fn root_and_confirmation_rules() {
    assert!(needs_root(Operation::Enable, false));
    assert!(needs_root(Operation::Disable, false));
    assert!(needs_root(Operation::Remove, false));
    assert!(!needs_root(Operation::Enable, true));
    assert!(!needs_root(Operation::Check, false));
    assert!(!needs_root(Operation::ListTargets, false));
    assert!(needs_confirmation(Operation::Enable, false));
    assert!(!needs_confirmation(Operation::Enable, true));
    assert!(!needs_confirmation(Operation::Disable, false));
    assert!(confirmed("y"));
    assert!(confirmed("  YES \n"));
    assert!(!confirmed("no"));
    assert!(!confirmed(""));
}

#[test]
fn printed_lines() {
    assert_eq!(check_line("coreutils", true), "coreutils\tCompatible: true");
    assert_eq!(check_line("sudo-rs", false), "sudo-rs\tCompatible: false");
    assert_eq!(target_line("coreutils", "/usr/bin/ls"), "coreutils\t/usr/bin/ls");
    let l = list_lines();
    assert_eq!(l[0], "Available utilities:");
    assert_eq!(l.len(), 6);
    let cli = Cli { use_uutils: true, command: Commands::List };
    assert_eq!(cli.implementation(), CoreUtilsImpl::Uutils);
    let cli = Cli { use_uutils: false, command: Commands::Exec { utility: "ls".into(), args: vec![] } };
    assert_eq!(cli.implementation(), CoreUtilsImpl::Gnu);
}

#[test]
fn verbosity_levels() {
    assert_eq!(parse_u8("0"), Some(0));
    assert_eq!(parse_u8("+3"), Some(3));
    assert_eq!(parse_u8("255"), Some(255));
    assert_eq!(parse_u8("256"), None);
    assert_eq!(parse_u8("99999999999"), None);
    assert_eq!(parse_u8(""), None);
    assert_eq!(parse_u8("+"), None);
    assert_eq!(parse_u8("1a"), None);
    assert_eq!(verbosity_level(Some("0")), LogLevel::Error);
    assert_eq!(verbosity_level(Some("1")), LogLevel::Info);
    assert_eq!(verbosity_level(Some("2")), LogLevel::Debug);
    assert_eq!(verbosity_level(Some("3")), LogLevel::Trace);
    assert_eq!(verbosity_level(Some("7")), LogLevel::Info);
    assert_eq!(verbosity_level(Some("loud")), LogLevel::Info);
    assert_eq!(verbosity_level(None), LogLevel::Info);
}

#[test]
fn audit_locations_and_records() {
    assert_eq!(AuditMakeWriter::fallback_path(Some("/home/u")), "/home/u/.oxidizr-arch-audit.log");
    assert_eq!(AuditMakeWriter::fallback_path(Some("/home/u/")), "/home/u/.oxidizr-arch-audit.log");
    assert_eq!(AuditMakeWriter::fallback_path(None), "/tmp/.oxidizr-arch-audit.log");
    let w = AuditMakeWriter::new("/var/log/x.log".into());
    assert_eq!(w.primary, "/var/log/x.log");
    let p = ProvenanceLogger::new();
    let e = p.log("cli", "enabled", "success", "coreutils", "", Some(0));
    assert_eq!(e.component, "cli");
    assert_eq!(e.exit_code, Some(0));
    let o = p.log_operation("RESTORE_FILE", "/usr/bin/ls", false);
    assert_eq!(o.target, "/usr/bin/ls");
    assert!(!o.success);
    assert_eq!(json_escape("a\"b\\c\nd"), "a\\\"b\\\\c\\nd");
    let line = format_provenance_entry("t", "c\n", "e", "d", "i", "o", Some(-12));
    assert_eq!(
        line,
        "{\"timestamp\":\"t\",\"component\":\"c\\n\",\"event\":\"e\",\"decision\":\"d\",\"inputs\":\"i\",\"outputs\":\"o\",\"exit_code\":-12}\n"
    );
    assert_eq!(line.matches('\n').count(), 1);
}

#[test]
fn package_manager_validation_messages() {
    let pm = PacmanManager::new(String::new(), false);
    assert!(pm.validate_package_name("ripgrep").is_ok());
    match pm.validate_package_name("-x") {
        Err(Error::ExecutionFailed(m)) => assert_eq!(m, "Invalid package name: -x"),
        _ => panic!(),
    }
    match pm.validate_package_name(&"a".repeat(257)) {
        Err(Error::ExecutionFailed(m)) => assert_eq!(m, "Package name too long"),
        _ => panic!(),
    }
    match pm.validate_package_name("a;b") {
        Err(Error::ExecutionFailed(m)) => assert_eq!(m, "Invalid characters in package name: a;b"),
        _ => panic!(),
    }
}

#[test]
fn package_manager_install_walks_pacman_then_aur() {
    let pm = PacmanManager::new("paru".into(), false);
    match pm.install_step("ripgrep", PmEvent::Start) {
        PmAction::Run(c) => {
            assert_eq!(c.command, "pacman");
            assert_eq!(args_of(&c), vec!["-Qi", "ripgrep"]);
        }
        _ => panic!(),
    }
    assert!(matches!(
        pm.install_step("ripgrep", PmEvent::QueryExited(true)),
        PmAction::Finish { result: Ok(()), audit: None }
    ));
    match pm.install_step("ripgrep", PmEvent::InstallExited(false)) {
        PmAction::FindHelper(c) => assert_eq!(c, vec!["paru", "paru", "yay", "trizen", "pamac"]),
        _ => panic!(),
    }
    match pm.install_step("ripgrep", PmEvent::HelperFound(Some("yay".into()))) {
        PmAction::Run(c) => {
            assert_eq!(c.command, "sudo");
            assert_eq!(args_of(&c), vec!["-u", "builder", "--", "yay", "-S", "--noconfirm", "--needed", "ripgrep"]);
        }
        _ => panic!(),
    }
    match pm.install_step("ripgrep", PmEvent::HelperExited(false)) {
        PmAction::Finish { result: Err(Error::ExecutionFailed(m)), audit: Some(a) } => {
            assert_eq!(m, "Failed to install 'ripgrep'");
            assert_eq!(a.operation, "PACKAGE_INSTALL");
            assert!(!a.success);
        }
        _ => panic!(),
    }
    let dry = PacmanManager::new(String::new(), true);
    assert!(matches!(dry.install_step("ripgrep", PmEvent::Start), PmAction::Finish { result: Ok(()), audit: None }));
    assert!(matches!(dry.update_step(PmEvent::Start), PmAction::Finish { result: Ok(()), audit: None }));
    match pm.remove_step("ripgrep", PmEvent::RemoveExited(true)) {
        PmAction::Finish { result: Ok(()), audit: Some(a) } => assert_eq!(a.operation, "PACKAGE_REMOVE"),
        _ => panic!(),
    }
}

#[test]
fn facts_map_to_audit_fields() {
    let fields = FactFields {
        object: Some(vec![
            ("stage".into(), FactValue::Str("enable".into())),
            ("rc".into(), FactValue::NegInt(-2)),
            ("duration_ms".into(), FactValue::PosInt(15)),
            ("cmd".into(), FactValue::PosInt(3)),
            ("artifacts".into(), FactValue::Array(vec![Some("a".into()), None, Some("b".into())])),
            ("stage".into(), FactValue::Str("later".into())),
        ]),
    };
    let r = ProductFacts.emit("symlink", "backup_created", "success", &fields);
    assert_eq!(r.subsystem, "symlink");
    assert_eq!(r.fields.stage.as_deref(), Some("enable"));
    assert_eq!(r.fields.rc, Some(-2));
    assert_eq!(r.fields.duration_ms, Some(15));
    assert_eq!(r.fields.cmd, None);
    assert_eq!(r.fields.artifacts, Some(vec!["a".to_string(), "b".to_string()]));
    assert_eq!(r.fields.target, None);
    let none = ProductFacts.emit("s", "e", "d", &FactFields { object: None });
    assert!(none.fields.stage.is_none() && none.fields.artifacts.is_none());
    let empty_arr = FactFields { object: Some(vec![("artifacts".into(), FactValue::Array(vec![None]))]) };
    assert!(ProductFacts.emit("s", "e", "d", &empty_arr).fields.artifacts.is_none());
    let line = ProductAudit.log(LogLevel::Warn, "careful");
    assert_eq!(line.level, LogLevel::Warn);
    assert_eq!(line.message, "careful");
}

#[test]
fn gates() {
    assert!(matches!(repo_gate("uutils-coreutils", true, false), Ok(true)));
    assert!(matches!(repo_gate("uutils-findutils-bin", true, true), Ok(false)));
    match repo_gate("sudo-rs", false, true) {
        Err(Error::RepoGateFailed { package, details }) => {
            assert_eq!(package, "sudo-rs");
            assert_eq!(details, "extra repo unavailable");
        }
        _ => panic!(),
    }
    match repo_gate("uutils-findutils-bin", true, false) {
        Err(Error::RepoGateFailed { details, .. }) => assert_eq!(details, "no AUR helper available"),
        _ => panic!(),
    }
    assert!(repo_probe_gate("sudo-rs", Ok(false)).is_err());
    assert!(repo_probe_gate("sudo-rs", Ok(true)).is_ok());
    let e = &all_experiments()[1];
    let debian = Distribution { id: "debian".into(), id_like: "".into(), release: "12".into() };
    match e.compat_gate(&debian, false) {
        Err(Error::Incompatible(m)) => assert!(m.starts_with("Unsupported distro 'debian'")),
        _ => panic!(),
    }
    assert!(e.compat_gate(&debian, true).is_ok());
    let manjaro = Distribution { id: "Manjaro".into(), id_like: "arch".into(), release: "x".into() };
    assert!(e.compat_gate(&manjaro, false).is_ok());
}

#[test]
fn checksum_tools_are_preserved() {
    assert!(is_preserved("sha256sum"));
    assert!(!is_preserved("ls"));
    let v = vec![
        ("ls".to_string(), "/x/ls".to_string()),
        ("md5sum".to_string(), "/x/md5sum".to_string()),
        ("cat".to_string(), "/x/cat".to_string()),
    ];
    let kept: Vec<String> = filter_preserved(&v).into_iter().map(|p| p.0).collect();
    assert_eq!(kept, vec!["ls", "cat"]);
}

#[test]
fn os_release_and_lock() {
    let d = parse_os_release("NAME=\"Arch Linux\"\nID=arch\nID_LIKE=\"archlinux\"\n");
    assert_eq!(d.id, "arch");
    assert_eq!(d.release, "rolling");
    assert!(matches!(lock_wait_step(false, None, 0), LockStep::Clear));
    assert!(matches!(lock_wait_step(true, None, 0), LockStep::GiveUp));
    assert!(matches!(lock_wait_step(true, Some(30), 29_999), LockStep::Sleep));
    assert!(matches!(lock_wait_step(true, Some(30), 30_000), LockStep::GiveUp));
}

#[test]
fn unicode_whitespace_is_trimmed_from_answers() {
    // Goes through char::is_whitespace: an em space and an ideographic space are trimmed.
    assert!(confirmed("\u{2003}y\u{3000}"));
    assert!(!confirmed("\u{2003}n"));
}

#[test]
fn operation_records_are_exact() {
    assert_eq!(
        format_operation_entry("2024-01-01 00:00:00.000", "root", 0, "CREATE_SYMLINK", "/usr/bin/ls", true),
        "[2024-01-01 00:00:00.000] USER=root UID=0 OPERATION=CREATE_SYMLINK TARGET=/usr/bin/ls STATUS=SUCCESS\n"
    );
    assert_eq!(
        format_operation_entry("t", "u", 1000, "RESTORE_FILE", "/x", false),
        "[t] USER=u UID=1000 OPERATION=RESTORE_FILE TARGET=/x STATUS=FAILURE\n"
    );
    assert_eq!(user_log_path(Some("/home/u")), "/home/u/.oxidizr-arch-audit.log");
    assert_eq!(user_log_path(None), "/tmp/.oxidizr-arch-audit.log");
}

#[test]
fn findutils_is_enabled_before_coreutils() {
    let v = select_experiments(false, &vec!["coreutils".into(), "findutils".into(), "coreutils".into()], &None).unwrap();
    assert_eq!(names(&v), vec!["findutils", "coreutils"]);
}

#[test]
fn sudors_disable_reports_a_target_still_linked() {
    // The mock reports every path as a symlink, so the first restored target fails the check.
    let mut s = Session::new(MockWorker::default());
    match SudoRsExperiment::new().disable(&mut s, false, false) {
        Err(Error::ExecutionFailed(m)) => {
            assert_eq!(m, "sudo was expected restored to non-symlink but is still a symlink: /usr/bin/sudo")
        }
        _ => panic!("expected a failed restore check"),
    }
    let e = &all_experiments()[0];
    assert!(e.disable(&mut s, false, false).is_ok());
}

#[test]
fn vecs_eq_is_unordered_multiset_equality() {
    assert!(vecs_eq(&[1, 2, 3], &[3, 1, 2]));
    assert!(!vecs_eq(&[1, 1, 2], &[1, 2, 2]));
    assert!(!vecs_eq(&[1, 2, 3], &[1, 1, 1]));
    assert!(!vecs_eq(&[1, 1, 1], &[1, 2, 3]));
    assert!(!vecs_eq(&[1, 2], &[1, 2, 2]));
    assert!(vecs_eq::<u8>(&[], &[]));
}

#[test]
fn checksums_experiment_targets_and_gate() {
    let c = ChecksumsExperiment::new();
    assert_eq!(c.name(), "checksums");
    assert_eq!(c.list_targets()[0], "/usr/bin/b2sum");
    assert_eq!(c.list_targets().len(), 7);
    // The mock finds no file, so nothing is discovered and enable has nothing to link.
    let mut s = Session::new(MockWorker::default());
    assert!(c.discover_applets(&s.worker).is_empty());
    assert!(matches!(c.enable(&mut s, true, false), Err(Error::NothingToLink(_))));
    assert!(c.disable(&mut s, true, false).is_ok());
}

#[test]
fn compatibility_follows_the_worker_distribution() {
    let mut w = MockWorker::default();
    let exp = UutilsExperiment {
        name: "coreutils".into(),
        package_name: "uutils-coreutils".into(),
        unified_binary: None,
        bin_directory: "/usr/lib/uutils/coreutils".into(),
    };
    w.distribution.id = "debian".into();
    assert_eq!(exp.check_compatible(&w).unwrap(), false);
    let mut s = Session::new(w);
    match exp.enable(&mut s, true, true) {
        Err(Error::Incompatible(m)) => assert_eq!(m, "Unsupported Arch release"),
        _ => panic!("expected the distribution gate"),
    }
    match all_experiments()[1].enable(&mut s, true, true, false) {
        Err(Error::Incompatible(m)) => assert!(m.starts_with("Unsupported distro 'debian'")),
        _ => panic!("expected the distribution gate"),
    }
    assert_eq!(s.worker.distribution().unwrap().id, "debian");
}

#[test]
fn link_locations_resolve_against_the_target_directory() {
    use_link_location();
}

fn use_link_location() {
    assert_eq!(oxidizr_arch::symlink::ops::link_location("/usr/bin/ls", "/usr/lib/uutils/ls"), "/usr/lib/uutils/ls");
    assert_eq!(oxidizr_arch::symlink::ops::link_location("/usr/bin/ls", "../lib/ls"), "/usr/bin/../lib/ls");
    assert_eq!(oxidizr_arch::symlink::ops::link_location("ls", "x"), "x");
}

#[test]
fn parent_directory_must_open_without_following_links() {
    assert!(oxidizr_arch::symlink::ops::parent_gate("/usr/bin", Ok(())).is_ok());
    match oxidizr_arch::symlink::ops::parent_gate("/usr/bin", Err("Too many levels of symbolic links".into())) {
        Err(Error::ExecutionFailed(m)) => {
            assert_eq!(m, "failed parent no-follow open on /usr/bin: Too many levels of symbolic links")
        }
        _ => panic!("expected a refusal"),
    }
}

#[test]
fn coreutils_enable_links_every_applet_but_the_checksum_tools_onto_the_dispatcher() {
    let c = oxidizr_arch::experiments::coreutils::CoreutilsExperiment::new();
    let mut s = Session::new(MockWorker::default());
    // The configured dispatcher is missing, so the one on the search path is used.
    let found = c.discover_applets(&s.worker).unwrap();
    assert!(found.len() > 7);
    assert!(found.iter().all(|(_, src)| src == "/usr/bin/coreutils"));
    let linked = filter_preserved(&found);
    assert_eq!(linked.len(), found.len() - 7);
    assert!(linked.iter().all(|(n, _)| !is_preserved(n)));
    assert!(c.enable(&mut s, true, true).is_ok());
}

#[test]
fn findutils_enable_needs_an_aur_helper() {
    let f = oxidizr_arch::experiments::findutils::FindutilsExperiment::new();
    let mut s = Session::new(MockWorker::default());
    match f.enable(&mut s, true, false) {
        Err(Error::RepoGateFailed { package, details }) => {
            assert_eq!(package, "uutils-findutils-bin");
            assert_eq!(details, "no AUR helper available");
        }
        _ => panic!("expected the repository gate"),
    }
    // The search path knows both applets.
    let found = f.discover_applets(&s.worker).unwrap();
    assert_eq!(found, vec![("find".to_string(), "/usr/bin/find".to_string()), ("xargs".to_string(), "/usr/bin/xargs".to_string())]);
}

#[test]
fn sudors_enable_links_through_aliases_from_the_search_path() {
    let e = SudoRsExperiment::new();
    let mut s = Session::new(MockWorker::default());
    assert_eq!(e.find_sudors_source(&s.worker, "sudo"), Some("/usr/bin/sudo-rs".to_string()));
    assert!(e.enable(&mut s, true, true).is_ok());
}

#[test]
fn remove_reports_a_package_still_installed() {
    let mut s = Session::new(MockWorker::default());
    match all_experiments()[1].remove(&mut s, true, false) {
        Err(Error::ExecutionFailed(m)) => assert_eq!(m, "package 'uutils-coreutils' still installed after removal"),
        _ => panic!("expected the removal check"),
    }
    // The checksum tools only restore: their package belongs to coreutils.
    assert!(all_experiments()[3].remove(&mut s, true, false).is_ok());
}

#[test]
fn uutils_families_select_and_link_their_applets() {
    let mut s = Session::new(MockWorker::default());
    let core = UutilsExperiment {
        name: "coreutils".into(),
        package_name: "uutils-coreutils".into(),
        unified_binary: None,
        bin_directory: "/usr/lib/uutils/coreutils".into(),
    };
    // No dispatcher exists and no candidate binary either: only `arch` is kept, onto uu-arch.
    let v = core.handle_coreutils_applets(&mut s).unwrap();
    assert_eq!(v, vec![("arch".to_string(), "/usr/bin/uu-arch".to_string())]);
    assert!(core.enable(&mut s, true, false).is_ok());
    let find = UutilsExperiment {
        name: "findutils".into(),
        package_name: "uutils-findutils-bin".into(),
        unified_binary: None,
        bin_directory: "/usr/lib/cargo/bin/findutils".into(),
    };
    let v = find.handle_non_coreutils_applets(&mut s).unwrap();
    assert_eq!(v, vec![("find".to_string(), "/usr/bin/find".to_string()), ("xargs".to_string(), "/usr/bin/xargs".to_string())]);
    match find.enable(&mut s, true, true) {
        Err(Error::ExecutionFailed(m)) => {
            assert_eq!(m, "Cannot download uutils-findutils because no AUR helper is installed.")
        }
        _ => panic!("expected the repository gate"),
    }
    assert_eq!(find.list_targets(&s.worker).unwrap().len(), 0);
    assert!(find.disable(&mut s, true, true).is_ok());
    assert!(find.remove(&mut s, true, false).is_ok());
}
