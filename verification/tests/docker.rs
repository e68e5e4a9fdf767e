use fleet_query::docker::{Docker, DockerProcess};
use fleet_query::hostname::{Hostname, HostnameFlag, HostnameResult};
use fleet_query::json::JsonRecord;
use fleet_query::outcome::{CommandResult, Execution, FieldError, FieldOutcome, ParseError};

fn container(n: u32) -> DockerProcess {
    DockerProcess {
        command: format!("\"/entry {}\"", n),
        created_at: format!("2024-01-0{} 10:00:00 +0000 UTC", n),
        image: format!("image:{}", n),
        names: format!("name_{}", n),
        running_for: format!("{} hours ago", n),
        state: "running".to_string(),
        status: format!("Up {} hours", n),
    }
}

fn line(p: &DockerProcess) -> String {
    let mut object = serde_json::Map::new();
    object.insert("Command".to_string(), serde_json::Value::String(p.command.clone()));
    object.insert("CreatedAt".to_string(), serde_json::Value::String(p.created_at.clone()));
    object.insert("ID".to_string(), serde_json::Value::String("0123456789ab".to_string()));
    object.insert("Image".to_string(), serde_json::Value::String(p.image.clone()));
    object.insert("Names".to_string(), serde_json::Value::String(p.names.clone()));
    object.insert("RunningFor".to_string(), serde_json::Value::String(p.running_for.clone()));
    object.insert("State".to_string(), serde_json::Value::String(p.state.clone()));
    object.insert("Status".to_string(), serde_json::Value::String(p.status.clone()));
    serde_json::to_string(&serde_json::Value::Object(object)).unwrap()
}

fn completed(exit_code: Option<i32>, stdout: &str, stderr: &str) -> Execution {
    Execution::Completed(CommandResult {
        exit_code,
        stdout: stdout.as_bytes().to_vec(),
        stderr: stderr.as_bytes().to_vec(),
    })
}

#[test]
fn three_lines_give_three_records_in_their_order() {
    let output = format!("{}\n{}\n{}\n", line(&container(1)), line(&container(2)), line(&container(3)));
    assert_eq!(
        Docker.parse_ps(&output),
        Ok(vec![container(1), container(2), container(3)])
    );
}

#[test]
fn one_corrupt_line_among_three_fails_the_call() {
    let output = format!("{}\n{{\"Command\": \n{}\n", line(&container(1)), line(&container(3)));
    let result = Docker.parse_ps(&output);
    match result {
        Err(ParseError::Json { line, reason }) => {
            assert_eq!(line, 1);
            let expected = serde_json::from_str::<serde_json::Value>("{\"Command\": ").unwrap_err();
            assert_eq!(reason, expected.to_string());
        }
        other => panic!("unexpected result: {:?}", other),
    }
}

#[test]
fn line_that_is_json_but_no_container_fails_the_call() {
    let output = format!("{}\n{}\n[1, 2]\n", line(&container(1)), line(&container(2)));
    assert_eq!(Docker.parse_ps(&output), Err(ParseError::Record { index: 2 }));
    let output = format!("{{\"Command\": \"x\"}}\n{}", line(&container(2)));
    assert_eq!(Docker.parse_ps(&output), Err(ParseError::Record { index: 0 }));
}

#[test]
fn member_of_another_kind_than_string_is_no_container() {
    let good = line(&container(4));
    let bad = good.replace("\"running\"", "17");
    assert_eq!(Docker.parse_ps(&bad), Err(ParseError::Record { index: 0 }));
    let bad = good.replace("\"running\"", "null");
    assert_eq!(Docker.parse_ps(&bad), Err(ParseError::Record { index: 0 }));
}

#[test]
fn empty_lines_are_passed_over() {
    let output = format!("\n{}\r\n\n{}\n\n", line(&container(1)), line(&container(2)));
    assert_eq!(Docker.parse_ps(&output), Ok(vec![container(1), container(2)]));
    assert_eq!(Docker.parse_ps(""), Ok(vec![]));
    assert_eq!(Docker.parse_ps("\n\n"), Ok(vec![]));
}

#[test]
fn line_of_blanks_is_not_empty_and_fails_the_call() {
    let output = format!("{}\n   \n", line(&container(1)));
    assert!(matches!(
        Docker.parse_ps(&output),
        Err(ParseError::Json { line: 1, .. })
    ));
}

#[test]
fn record_is_read_from_a_value() {
    let value: serde_json::Value = serde_json::from_str(&line(&container(7))).unwrap();
    assert_eq!(DockerProcess::read(&value), Some(container(7)));
    assert_eq!(DockerProcess::read(&serde_json::Value::Null), None);
    assert_eq!(
        DockerProcess::read(&serde_json::Value::String("Command".to_string())),
        None
    );
}

#[test]
fn ps_command_asks_for_one_json_object_to_a_line() {
    let command = Docker.ps_command();
    assert_eq!(command.program, "docker");
    assert_eq!(
        command.args,
        vec!["ps".to_string(), "--format".to_string(), "{{json .}}".to_string()]
    );
}

#[test]
fn ps_outcome_follows_the_exit_status() {
    let output = format!("{}\n", line(&container(1)));
    assert_eq!(
        Docker.ps(completed(Some(0), &output, "warning")),
        FieldOutcome::Value(vec![container(1)])
    );
    assert_eq!(
        Docker.ps(completed(Some(125), &output, "Cannot connect to the Docker daemon\n")),
        FieldOutcome::Error(FieldError::Exit("Cannot connect to the Docker daemon\n".to_string()))
    );
    assert_eq!(
        Docker.ps(Execution::SpawnFailed("docker: not found".to_string())),
        FieldOutcome::Error(FieldError::Spawn("docker: not found".to_string()))
    );
    assert_eq!(
        Docker.ps(completed(Some(0), "[]\n", "")),
        FieldOutcome::Error(FieldError::Output(ParseError::Record { index: 0 }))
    );
}

#[test]
fn failing_docker_leaves_hostname_its_value() {
    let docker = Docker.ps(completed(Some(1), "", "permission denied\n"));
    let hostname = Hostname.name(completed(Some(0), "node-17.example.com\n", ""));
    assert_eq!(
        docker,
        FieldOutcome::Error(FieldError::Exit("permission denied\n".to_string()))
    );
    assert_eq!(
        hostname,
        FieldOutcome::Value(HostnameResult { name: "node-17.example.com".to_string() })
    );
    assert!(docker.is_error() && !docker.is_value());
    assert!(hostname.is_value() && !hostname.is_error());
}

#[test]
fn hostname_is_the_trimmed_output() {
    assert_eq!(Hostname.parse_name("  web01 \r\n\n").name, "web01");
    assert_eq!(Hostname.parse_name("web01").name, "web01");
    assert_eq!(Hostname.parse_name("a b\tc\n").name, "a b\tc");
    assert_eq!(Hostname.parse_name(" \n\t ").name, "");
    assert_eq!(Hostname.parse_name("").name, "");
    assert_eq!(Hostname.parse_name("\u{a0}h\u{f6}st\u{2028}").name, "h\u{f6}st");
}

#[test]
fn hostname_command_takes_the_flag() {
    let short = Hostname.name_command(HostnameFlag::Short);
    assert_eq!(short.program, "hostname");
    assert_eq!(short.args, vec!["--short".to_string()]);
    let long = Hostname.name_command(HostnameFlag::Long);
    assert_eq!(long.program, "hostname");
    assert_eq!(long.args, vec!["--long".to_string()]);
    assert_eq!(HostnameFlag::default(), HostnameFlag::Long);
}

#[test]
fn hostname_outcome_follows_the_exit_status() {
    assert_eq!(
        Hostname.name(completed(Some(1), "web01\n", "hostname: Name or service not known\n")),
        FieldOutcome::Error(FieldError::Exit(
            "hostname: Name or service not known\n".to_string()
        ))
    );
    assert_eq!(
        Hostname.name(Execution::SpawnFailed("no such program".to_string())),
        FieldOutcome::Error(FieldError::Spawn("no such program".to_string()))
    );
    let bad = Execution::Completed(CommandResult {
        exit_code: Some(0),
        stdout: vec![0x80],
        stderr: vec![],
    });
    assert_eq!(
        Hostname.name(bad),
        FieldOutcome::Error(FieldError::Output(ParseError::Encoding))
    );
}
