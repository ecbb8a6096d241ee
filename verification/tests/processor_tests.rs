use filesculptor::processor::answer_is_yes;
use filesculptor::processor::backup_path;
use filesculptor::processor::check_root;
use filesculptor::processor::confirm_apply;
use filesculptor::processor::outcome_for;
use filesculptor::processor::plan_file;
use filesculptor::processor::script_request;
use filesculptor::processor::FileOutcome;
use filesculptor::processor::FilePlan;
use filesculptor::processor::ProcessingRequest;
use filesculptor::processor::WriteTarget;
use filesculptor::Config;
use filesculptor::ProcessingError;
use filesculptor::Replacement;
use filesculptor::RuleSet;

fn cat_dog_rules() -> RuleSet {
    let mut changes = RuleSet::new();
    changes.insert("cat".to_string(), Replacement::Exact("dog".to_string()));
    changes
}

fn request(dry_run: bool, backup: bool, interactive: bool) -> ProcessingRequest {
    ProcessingRequest {
        config: Config::new_session(cat_dog_rules()),
        input_path: "notes/pets.txt".to_string(),
        output_file: None,
        dry_run,
        backup,
        interactive,
        verbose: false,
    }
}

#[test]
fn dry_run_plans_no_disk_action() {
    let req = request(true, true, true);
    let plan = plan_file(&req, "a cat appears").unwrap();
    match plan {
        FilePlan::Report { preview } => assert_eq!(preview, "a dog appears"),
        FilePlan::Apply { .. } => panic!("a dry run must not plan a write"),
    }
}

#[test]
fn backup_preserves_the_original_before_any_write() {
    let req = request(false, true, false);
    let plan = plan_file(&req, "cat cat").unwrap();
    match plan {
        FilePlan::Apply { backup, content, .. } => {
            let step = backup.expect("a backup step is owed");
            assert_eq!(step.path, "notes/pets.bak");
            assert_eq!(step.content, "cat cat");
            assert_eq!(content, "dog dog");
        }
        FilePlan::Report { .. } => panic!("not a dry run"),
    }
}

#[test]
fn no_backup_flag_plans_no_backup() {
    let req = request(false, false, false);
    let plan = plan_file(&req, "cat").unwrap();
    match plan {
        FilePlan::Apply { backup, target, .. } => {
            assert!(backup.is_none());
            assert_eq!(target, WriteTarget::Stdout);
        }
        FilePlan::Report { .. } => panic!("not a dry run"),
    }
}

#[test]
fn explicit_output_file_is_the_write_target() {
    let mut req = request(false, false, false);
    req.output_file = Some("out.txt".to_string());
    let plan = plan_file(&req, "cat").unwrap();
    match plan {
        FilePlan::Apply { target, content, .. } => {
            assert_eq!(target, WriteTarget::File("out.txt".to_string()));
            assert_eq!(content, "dog");
        }
        FilePlan::Report { .. } => panic!("not a dry run"),
    }
}

#[test]
fn invalid_regex_propagates_from_planning() {
    let mut changes = RuleSet::new();
    changes.insert(
        "r".to_string(),
        Replacement::Regex { pattern: "(".to_string(), replacement: "x".to_string() },
    );
    let req = ProcessingRequest {
        config: Config::new_session(changes),
        input_path: "f.txt".to_string(),
        output_file: None,
        dry_run: false,
        backup: false,
        interactive: false,
        verbose: false,
    };
    let result = plan_file(&req, "text");
    assert!(matches!(result, Err(ProcessingError::InvalidRegex(_))));
}

#[test]
fn declined_confirmation_leaves_the_file_untouched() {
    let req = request(false, false, true);
    let plan = plan_file(&req, "cat").unwrap();
    match &plan {
        FilePlan::Apply { needs_confirm, .. } => {
            assert!(*needs_confirm);
            let proceed = confirm_apply(*needs_confirm, &Some("n".to_string()));
            assert!(!proceed);
            assert_eq!(outcome_for(&plan, proceed), FileOutcome::SkippedByUser);
        }
        FilePlan::Report { .. } => panic!("not a dry run"),
    }
}

#[test]
fn accepted_confirmation_applies_the_change() {
    let req = request(false, false, true);
    let plan = plan_file(&req, "cat").unwrap();
    match &plan {
        FilePlan::Apply { needs_confirm, content, .. } => {
            let proceed = confirm_apply(*needs_confirm, &Some("y".to_string()));
            assert!(proceed);
            assert_eq!(content, "dog");
            assert_eq!(outcome_for(&plan, proceed), FileOutcome::Written);
        }
        FilePlan::Report { .. } => panic!("not a dry run"),
    }
}

#[test]
fn answers_trim_and_ignore_case() {
    assert!(answer_is_yes("y"));
    assert!(answer_is_yes("Y"));
    assert!(answer_is_yes("  y\n"));
    assert!(answer_is_yes("\tY "));
    assert!(!answer_is_yes("n"));
    assert!(!answer_is_yes("N"));
    assert!(!answer_is_yes(""));
    assert!(!answer_is_yes("yes"));
    assert!(!answer_is_yes("y y"));
}

#[test]
fn backup_path_changes_the_extension() {
    assert_eq!(backup_path("dir/file.txt"), "dir/file.bak");
    assert_eq!(backup_path("file.tar.gz"), "file.tar.bak");
    assert_eq!(backup_path("noext"), "noext.bak");
    assert_eq!(backup_path("dir.d/noext"), "dir.d/noext.bak");
    assert_eq!(backup_path(".hidden"), ".hidden.bak");
    assert_eq!(backup_path("dir/.hidden"), "dir/.hidden.bak");
}

#[test]
fn directory_root_needs_the_recursive_flag() {
    assert_eq!(check_root(false, true), Err(ProcessingError::PathIsDirectory));
    assert_eq!(check_root(false, false), Ok(()));
    assert_eq!(check_root(true, true), Ok(()));
    assert_eq!(check_root(true, false), Ok(()));
}

#[test]
fn scripted_requests_disable_every_mode_flag() {
    let config = Config::new_session(cat_dog_rules());
    let req = script_request(config, "root".to_string());
    assert_eq!(req.input_path, "root");
    assert!(req.output_file.is_none());
    assert!(!req.dry_run);
    assert!(!req.backup);
    assert!(!req.interactive);
    assert!(!req.verbose);
}
