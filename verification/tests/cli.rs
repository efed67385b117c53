use std::path::PathBuf;
use tf2_queue_query::cli::{valid_prefix, validate_cli, Cli, CliError, Command, CsvOptions};

fn cli(compact: bool, command: Option<Command>) -> Cli {
    Cli {
        tf2_root: None,
        timeout: 30,
        allow_tf2_running: false,
        compact,
        command,
    }
}

fn csv() -> Command {
    Command::Csv(CsvOptions {
        out: PathBuf::from("csv-data"),
        prefix: "tf2-queue".to_owned(),
        flat: false,
    })
}

#[test]
fn compact_rejects_csv_output() {
    // What parsing `tf2-queue-query --compact csv` gives.
    let cli = cli(true, Some(csv()));
    assert!(validate_cli(&cli).is_err());
}

#[test]
fn compact_goes_with_every_json_output() {
    assert_eq!(validate_cli(&cli(true, None)), Ok(()));
    assert_eq!(validate_cli(&cli(true, Some(Command::Maps))), Ok(()));
    assert_eq!(validate_cli(&cli(true, Some(Command::Modes))), Ok(()));
    assert_eq!(validate_cli(&cli(true, Some(Command::Summary))), Ok(()));
    assert_eq!(validate_cli(&cli(false, Some(csv()))), Ok(()));
    assert_eq!(validate_cli(&cli(true, Some(csv()))), Err(CliError::CompactWithCsv));
    assert_eq!(
        CliError::CompactWithCsv.message(),
        "--compact applies only to JSON output and cannot be used with csv"
    );
}

#[test]
fn prefixes_of_letters_digits_hyphens_underscores() {
    assert_eq!(valid_prefix("tf2-queue"), Ok("tf2-queue".to_owned()));
    assert_eq!(valid_prefix("A_b-9"), Ok("A_b-9".to_owned()));
    let refusal = Err("prefix may contain only letters, numbers, underscores, and hyphens".to_owned());
    assert_eq!(valid_prefix(""), refusal);
    assert_eq!(valid_prefix("a b"), refusal);
    assert_eq!(valid_prefix("../x"), refusal);
    assert_eq!(valid_prefix("café"), refusal);
}
