use sbbw::autostart::{detect, file_hash_of, hex_string, plan_autostart, AutoStartCommand};
use sbbw::exec::plan_command;
use sbbw::ledger::Ledger;

fn commands() -> Vec<AutoStartCommand> {
    vec![
        AutoStartCommand { cmd: "./start.sh".to_string(), args: vec!["--quiet".to_string()] },
        AutoStartCommand { cmd: "init.lua".to_string(), args: vec![] },
        AutoStartCommand { cmd: "echo".to_string(), args: vec!["hi".to_string(), "there".to_string()] },
    ]
}

fn files(script: &str) -> Vec<(String, String)> {
    vec![("start.sh".to_string(), script.to_string())]
}

#[test]
fn file_hash_is_sha1_hex_of_name_and_contents() {
    assert_eq!(file_hash_of("config.toml", ""), "96209383826fe316ea8ab5d9812989f71c364722");
    assert_eq!(file_hash_of("start.sh", "echo hi\n"), "f7e8d23f7ae710b43ed7e5a4d10e209d9ff9f8f4");
    assert_eq!(hex_string(&vec![0u8, 15, 16, 255]), "000f10ff");
}

#[test]
fn first_pass_runs_all_but_skipped_commands() {
    let pass = detect("", &files("echo hi\n"), "", &commands());
    assert!(pass.changed);
    assert_eq!(
        pass.commands,
        vec![
            vec!["./start.sh".to_string(), "--quiet".to_string()],
            vec!["echo".to_string(), "hi".to_string(), "there".to_string()],
        ]
    );
    assert_eq!(
        pass.ledger,
        "start.sh:f7e8d23f7ae710b43ed7e5a4d10e209d9ff9f8f4\nconfig.toml:96209383826fe316ea8ab5d9812989f71c364722\n"
    );
}

#[test]
fn second_pass_without_changes_runs_nothing() {
    let first = detect("", &files("echo hi\n"), "name = \"x\"\n", &commands());
    let second = detect(&first.ledger, &files("echo hi\n"), "name = \"x\"\n", &commands());
    assert!(!second.changed);
    assert!(second.commands.is_empty());
    assert_eq!(second.ledger, first.ledger);
}

#[test]
fn one_changed_byte_reruns_every_command() {
    let first = detect("", &files("echo hi\n"), "", &commands());
    let second = detect(&first.ledger, &files("echo hj\n"), "", &commands());
    assert!(second.changed);
    assert_eq!(second.commands, first.commands);
    assert!(second.ledger.contains("start.sh:40b9ced79f1742a68ae6c43e7ba6ae340ab2a72e\n"));
}

#[test]
fn new_file_counts_as_change() {
    let first = detect("", &vec![], "", &commands());
    let second = detect(&first.ledger, &files("echo hi\n"), "", &commands());
    assert!(second.changed);
}

#[test]
fn plan_skips_interpreter_scripts() {
    assert_eq!(plan_autostart(&commands()).len(), 2);
    assert!(plan_autostart(&vec![]).is_empty());
}

#[test]
fn ledger_reads_lines_of_name_and_hash() {
    let l = Ledger::load("a:1\n\nbad line\nb:2:extra\na:3");
    assert_eq!(l.len(), 3);
    assert_eq!(l.get("a"), Some("3".to_string()));
    assert_eq!(l.get("b"), Some("2".to_string()));
    assert_eq!(l.get("bad line"), None);
    assert_eq!(l.save(), "a:1\nb:2\na:3\n");
    let mut m = Ledger::new();
    m.insert("x".to_string(), "9".to_string());
    assert_eq!(Ledger::load(&m.save()).get("x"), Some("9".to_string()));
}

#[test]
fn relative_script_runs_through_shell_in_dir() {
    let inv = plan_command("/w/autostart".to_string(), &vec!["./script.sh".to_string(), "arg".to_string()]).unwrap();
    assert_eq!(inv.program, "sh");
    assert_eq!(inv.args, vec!["-c".to_string(), "./script.sh arg".to_string()]);
    assert_eq!(inv.dir, "/w/autostart");
}

#[test]
fn program_runs_directly_with_its_arguments() {
    let inv = plan_command("/tmp".to_string(), &vec!["echo".to_string(), "hi".to_string()]).unwrap();
    assert_eq!(inv.program, "echo");
    assert_eq!(inv.args, vec!["hi".to_string()]);
    assert_eq!(inv.dir, "/tmp");
    assert_eq!(plan_command("/tmp".to_string(), &vec![]).unwrap_err(), "The arguments cannot be empty");
}
