use docker_compose::{EnvFile, EnvFileError, VarMap};

#[test]
fn parses_docker_compatible_env_files() {
    let input = r#"
# This is a comment.
# This is a blank line:

# These are environment variables:
FOO=foo
BAR=2

# Docker does not currently do anything special with quotes!
WEIRD="quoted"

# TODO LOW: What if an .env file contains a shell variable interpolation?
"#;
    let env_file = EnvFile::read(input).unwrap();
    let env = env_file.as_map();
    assert_eq!(env.get("FOO").unwrap(), "foo");
    assert_eq!(env.get("BAR").unwrap(), "2");
    assert_eq!(env.get("WEIRD").unwrap(), "\"quoted\"");
}

#[test]
fn env_file_comments_and_blanks_add_nothing() {
    let input = "\n# a comment\n   \nFOO=foo\nBAR=2\n  # indented comment\nWEIRD=\"quoted\"\n";
    let env_file = EnvFile::read(input).unwrap();
    let env = env_file.as_map();
    assert_eq!(env.len(), 3);
    assert_eq!(env.get("WEIRD").unwrap(), "\"quoted\"");
    assert_eq!(env.get("WEIRD").unwrap().chars().count(), 8);
    assert!(env.get("a comment").is_none());
}

#[test]
fn env_file_later_assignment_wins() {
    let env_file = EnvFile::read("X=1\nY=a\nX=2\n").unwrap();
    let env = env_file.as_map();
    assert_eq!(env.get("X").unwrap(), "2");
    assert_eq!(env.get("Y").unwrap(), "a");
    assert_eq!(env.len(), 2);
}

#[test]
fn env_file_rejects_malformed_line() {
    let err = EnvFile::read("FOO=1\nnot-a-valid-line\nBAR=2\n").err().unwrap();
    assert_eq!(err, EnvFileError::ParseEnv("not-a-valid-line".to_owned()));
}

#[test]
fn env_file_reports_first_bad_line() {
    let err = EnvFile::read("1X=2\n=3\n").err().unwrap();
    assert_eq!(err, EnvFileError::ParseEnv("1X=2".to_owned()));
    let err = EnvFile::read(" FOO=1").err().unwrap();
    assert_eq!(err, EnvFileError::ParseEnv(" FOO=1".to_owned()));
}

#[test]
fn env_file_values_are_taken_verbatim() {
    let env_file = EnvFile::read("lower_case9=a=b # not a comment\nE=\nS='x y'\\n").unwrap();
    let env = env_file.as_map();
    assert_eq!(env.get("lower_case9").unwrap(), "a=b # not a comment");
    assert_eq!(env.get("E").unwrap(), "");
    assert_eq!(env.get("S").unwrap(), "'x y'\\n");
}

#[test]
fn env_file_line_endings() {
    let env_file = EnvFile::read("A=1\r\nB=2\r\nC=3").unwrap();
    let env = env_file.as_map();
    assert_eq!(env.get("A").unwrap(), "1");
    assert_eq!(env.get("B").unwrap(), "2");
    assert_eq!(env.get("C").unwrap(), "3");
    // A `\r` with no `\n` after it belongs to the value.
    let env_file = EnvFile::read("D=4\r").unwrap();
    assert_eq!(env_file.as_map().get("D").unwrap(), "4\r");
}

#[test]
fn env_file_empty_input() {
    let env_file = EnvFile::read("").unwrap();
    assert_eq!(env_file.as_map().len(), 0);
    let env_file = EnvFile::read("\t\u{a0}\n").unwrap();
    assert_eq!(env_file.as_map().len(), 0);
}

#[test]
fn var_map_insert_replaces() {
    let mut m = VarMap::new();
    m.insert("K".to_owned(), "1".to_owned());
    m.insert("L".to_owned(), "2".to_owned());
    m.insert("K".to_owned(), "3".to_owned());
    assert_eq!(m.len(), 2);
    assert_eq!(m.get("K").unwrap(), "3");
    assert_eq!(m.entries()[0], ("K".to_owned(), "3".to_owned()));
    assert!(m.get("M").is_none());
}
