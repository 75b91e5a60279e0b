use svu::commands::{Bisect, BisectCommands, Good, Start};
use svu::logfmt::{log_bisect_command, log_bisect_revision};

#[test]
fn revision_lines_carry_term_number_and_message() {
    assert_eq!(
        log_bisect_revision(42, "good", "Fix the frobnicator").as_str(),
        "# good: [42] Fix the frobnicator"
    );
    assert_eq!(
        log_bisect_revision(7, "skip", "").as_str(),
        "# skip: [7] "
    );
}

#[test]
fn command_lines_join_with_spaces() {
    let words = vec![
        "svu".to_string(),
        "bisect".to_string(),
        "good".to_string(),
    ];
    assert_eq!(log_bisect_command(&words).as_str(), "svu bisect good");
    assert_eq!(log_bisect_command(&vec![]).as_str(), "");
    assert_eq!(
        log_bisect_command(&vec!["reset".to_string()]).as_str(),
        "reset"
    );
}

#[test]
fn commands_carry_their_arguments() {
    let cmd = Bisect {
        command: BisectCommands::Start(Start {
            good_rev: Some("HEAD-10".to_string()),
            bad_rev: None,
            term_good: None,
            term_bad: None,
        }),
    };
    match cmd.command {
        BisectCommands::Start(s) => {
            assert_eq!(s.good_rev.as_deref(), Some("HEAD-10"));
            assert!(s.bad_rev.is_none());
        }
        _ => panic!("expected the start subcommand"),
    }
    let good = Good { revision: None };
    assert!(good.revision.is_none());
}
