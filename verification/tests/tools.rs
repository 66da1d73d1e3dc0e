use midna::error::MidnaError;
use midna::json::JsonValue;
use midna::permissions::Risk;
use midna::tools::fs::{
    directory_to_create, list_dir_output, read_file_output, write_file_output, DirEntry, ListDir, ListFailure, ReadFile,
    WriteFailure, WriteFile, MAX_READ_BYTES,
};
use midna::tools::shell::{run_shell_output, CommandOutput, RunShell, ShellFailure};
use midna::tools::{required_str, Tool, ToolKind, ToolRegistry, ToolRequest};

fn object(members: Vec<(&str, JsonValue)>) -> JsonValue {
    JsonValue::Object(members.into_iter().map(|(k, v)| (k.to_string(), v)).collect())
}

fn text(s: &str) -> JsonValue {
    JsonValue::Str(s.to_string())
}

#[test]
fn builtin_registry_resolves_tools_by_name() {
    let registry = ToolRegistry::builtin();
    for name in ["read_file", "write_file", "list_dir", "run_shell"] {
        assert!(registry.get(name).is_some(), "missing tool: {name}");
    }
    assert!(registry.get("no_such_tool").is_none());
}

#[test]
fn specs_expose_function_schemas() {
    let registry = ToolRegistry::builtin();
    let specs = registry.specs();
    assert_eq!(specs.len(), 4);
    assert!(specs.iter().all(|s| s.kind == "function"));
    assert!(specs
        .iter()
        .all(|s| s.function.parameters.get("type").is_some()));
}

#[test]
fn registry_returns_the_tool_of_each_name() {
    let registry = ToolRegistry::builtin();
    assert_eq!(registry.get("read_file"), Some(ToolKind::ReadFile));
    assert_eq!(registry.get("write_file"), Some(ToolKind::WriteFile));
    assert_eq!(registry.get("list_dir"), Some(ToolKind::ListDir));
    assert_eq!(registry.get("run_shell"), Some(ToolKind::RunShell));
    assert_eq!(registry.get("read_fil"), None);
}

#[test]
fn unit_tools_describe_themselves() {
    assert_eq!(ReadFile.name(), "read_file");
    assert_eq!(WriteFile.name(), "write_file");
    assert_eq!(ListDir.name(), "list_dir");
    assert_eq!(RunShell.name(), "run_shell");
    assert_eq!(ReadFile.risk(), Risk::ReadOnly);
    assert_eq!(ListDir.risk(), Risk::ReadOnly);
    assert_eq!(WriteFile.risk(), Risk::Write);
    assert_eq!(RunShell.risk(), Risk::Execute);
    let spec = WriteFile.spec();
    assert_eq!(spec.function.name, "write_file");
    assert_eq!(
        spec.function.description,
        "Write content to a file, creating it (and parent directories) if needed, or overwriting it."
    );
}

#[test]
fn read_file_schema_requires_path() {
    let params = ReadFile.parameters();
    assert_eq!(params.get("type").and_then(|v| v.as_str()), Some("object"));
    let path = params.get("properties").and_then(|p| p.get("path")).expect("path property");
    assert_eq!(path.get("type").and_then(|v| v.as_str()), Some("string"));
    assert_eq!(
        path.get("description").and_then(|v| v.as_str()),
        Some("Path to the file to read")
    );
    match params.get("required") {
        Some(JsonValue::Array(items)) => {
            assert_eq!(items.len(), 1);
            assert_eq!(items[0].as_str(), Some("path"));
        }
        other => panic!("unexpected required list: {other:?}"),
    }
}

#[test]
fn list_dir_schema_has_no_required_list() {
    let params = ListDir.parameters();
    assert!(params.get("required").is_none());
    assert!(params.get("properties").and_then(|p| p.get("path")).is_some());
}

#[test]
fn json_get_finds_first_member_and_ignores_non_objects() {
    let v = object(vec![("a", text("1")), ("b", text("2")), ("a", text("3"))]);
    assert_eq!(v.get("a").and_then(|x| x.as_str()), Some("1"));
    assert_eq!(v.get("b").and_then(|x| x.as_str()), Some("2"));
    assert!(v.get("c").is_none());
    assert!(text("a").get("a").is_none());
    assert!(JsonValue::Null.as_str().is_none());
}

#[test]
fn required_str_reads_string_arguments() {
    let args = object(vec![("path", text("src/main.rs")), ("n", JsonValue::Number("3".to_string()))]);
    assert_eq!(required_str(&args, "path").expect("path"), "src/main.rs");
    match required_str(&args, "n") {
        Err(MidnaError::Tool(m)) => assert_eq!(m, "missing required string argument `n`"),
        other => panic!("unexpected: {other:?}"),
    }
}

#[test]
fn missing_required_argument_is_rejected() {
    let err = ToolKind::ReadFile
        .request(&object(vec![]))
        .expect_err("should fail");
    assert!(matches!(err, MidnaError::Tool(_)));
}

#[test]
fn write_request_reports_the_first_missing_argument() {
    match ToolKind::WriteFile.request(&object(vec![("content", text("x"))])) {
        Err(MidnaError::Tool(m)) => assert_eq!(m, "missing required string argument `path`"),
        other => panic!("unexpected: {other:?}"),
    }
    match ToolKind::WriteFile.request(&object(vec![("path", text("p"))])) {
        Err(MidnaError::Tool(m)) => assert_eq!(m, "missing required string argument `content`"),
        other => panic!("unexpected: {other:?}"),
    }
    match ToolKind::WriteFile.request(&object(vec![("path", text("p")), ("content", text("c"))])) {
        Ok(ToolRequest::WriteFile { path, content }) => {
            assert_eq!(path, "p");
            assert_eq!(content, "c");
        }
        other => panic!("unexpected: {other:?}"),
    }
}

#[test]
fn list_dir_defaults_to_current_directory() {
    match ToolKind::ListDir.request(&object(vec![])) {
        Ok(ToolRequest::ListDir { path }) => assert_eq!(path, "."),
        other => panic!("unexpected: {other:?}"),
    }
    match ToolKind::ListDir.request(&object(vec![("path", text("src"))])) {
        Ok(ToolRequest::ListDir { path }) => assert_eq!(path, "src"),
        other => panic!("unexpected: {other:?}"),
    }
}

#[test]
fn write_then_read_roundtrip() {
    let path_str = "/tmp/nested/hello.txt";
    let written = write_file_output(path_str, "こんにちは", Ok(())).expect("write ok");
    assert!(written.contains(path_str));
    assert_eq!(written, "wrote 15 bytes to /tmp/nested/hello.txt");

    let content = read_file_output(path_str, Ok("こんにちは".to_string())).expect("read ok");
    assert_eq!(content, "こんにちは");
}

#[test]
fn write_failures_name_the_step() {
    match write_file_output("a/b", "x", Err(WriteFailure::CreateDirs("denied".to_string()))) {
        Err(MidnaError::Tool(m)) => assert_eq!(m, "failed to create directories for `a/b`: denied"),
        other => panic!("unexpected: {other:?}"),
    }
    match write_file_output("a/b", "x", Err(WriteFailure::Write("full".to_string()))) {
        Err(MidnaError::Tool(m)) => assert_eq!(m, "failed to write `a/b`: full"),
        other => panic!("unexpected: {other:?}"),
    }
}

#[test]
fn read_missing_file_returns_tool_error() {
    let err = read_file_output(
        "/no/such/file/exists",
        Err("No such file or directory (os error 2)".to_string()),
    )
    .expect_err("should fail");
    assert!(matches!(err, MidnaError::Tool(_)));
    assert_eq!(
        err.message(),
        "tool error: failed to read `/no/such/file/exists`: No such file or directory (os error 2)"
    );
}

#[test]
fn long_files_are_cut_at_a_character_boundary() {
    // 'あ' takes three bytes, so the limit falls inside a character.
    let content = "あ".repeat(MAX_READ_BYTES / 3 + 10);
    let out = read_file_output("big.txt", Ok(content.clone())).expect("read ok");
    let kept = MAX_READ_BYTES / 3 * 3;
    assert_eq!(out, format!("{}\n[... truncated ...]", &content[..kept]));
    let exact = "a".repeat(MAX_READ_BYTES);
    assert_eq!(read_file_output("x", Ok(exact.clone())).expect("ok"), exact);
}

#[test]
fn list_dir_marks_directories() {
    let entries = vec![
        DirEntry { name: "sub".to_string(), is_dir: true },
        DirEntry { name: "a.txt".to_string(), is_dir: false },
    ];
    let listed = list_dir_output(".", Ok(entries)).expect("list ok");
    assert_eq!(listed, "a.txt\nsub/");
}

#[test]
fn list_dir_sorts_by_bytes() {
    let entries = vec![
        DirEntry { name: "b".to_string(), is_dir: false },
        DirEntry { name: "B".to_string(), is_dir: false },
        DirEntry { name: "é".to_string(), is_dir: false },
        DirEntry { name: "a".to_string(), is_dir: true },
        DirEntry { name: "a".to_string(), is_dir: false },
    ];
    let listed = list_dir_output(".", Ok(entries)).expect("list ok");
    assert_eq!(listed, "B\na\na/\nb\né");
    assert_eq!(list_dir_output(".", Ok(vec![])).expect("ok"), "");
}

#[test]
fn list_dir_failures() {
    match list_dir_output("nope", Err(ListFailure::Open("not found".to_string()))) {
        Err(MidnaError::Tool(m)) => assert_eq!(m, "failed to list `nope`: not found"),
        other => panic!("unexpected: {other:?}"),
    }
    match list_dir_output("d", Err(ListFailure::Entry("bad entry".to_string()))) {
        Err(MidnaError::Io(m)) => assert_eq!(m, "bad entry"),
        other => panic!("unexpected: {other:?}"),
    }
}

#[test]
fn captures_stdout_and_exit_code() {
    let out = run_shell_output(
        "echo hello",
        Ok(CommandOutput { stdout: b"hello\n".to_vec(), stderr: vec![], code: Some(0) }),
    )
    .expect("ok");
    assert!(out.contains("hello"));
    assert!(out.contains("[exit code: 0]"));
    assert_eq!(out, "hello\n\n[exit code: 0]");
}

#[test]
fn captures_stderr_and_nonzero_exit() {
    let out = run_shell_output(
        "echo oops >&2; exit 3",
        Ok(CommandOutput { stdout: vec![], stderr: b"oops\n".to_vec(), code: Some(3) }),
    )
    .expect("ok");
    assert!(out.contains("[stderr]"));
    assert!(out.contains("oops"));
    assert!(out.contains("[exit code: 3]"));
    assert_eq!(out, "\n[stderr]\noops\n\n[exit code: 3]");
}

#[test]
fn shell_output_decodes_invalid_bytes_and_unknown_codes() {
    let out = run_shell_output(
        "x",
        Ok(CommandOutput { stdout: vec![b'a', 0xff, b'b'], stderr: vec![], code: None }),
    )
    .expect("ok");
    assert_eq!(out, "a\u{fffd}b\n[exit code: unknown]");
    let neg = run_shell_output(
        "x",
        Ok(CommandOutput { stdout: vec![], stderr: vec![], code: Some(-2147483648) }),
    )
    .expect("ok");
    assert_eq!(neg, "\n[exit code: -2147483648]");
}

#[test]
fn shell_output_is_cut_before_the_exit_code() {
    let big = vec![b'x'; 40 * 1024];
    let out = run_shell_output("x", Ok(CommandOutput { stdout: big, stderr: vec![], code: Some(1) }))
        .expect("ok");
    assert_eq!(
        out,
        format!("{}\n[... truncated ...]\n[exit code: 1]", "x".repeat(32 * 1024))
    );
}

#[test]
fn shell_failures() {
    match run_shell_output("sleep 100", Err(ShellFailure::TimedOut)) {
        Err(MidnaError::Tool(m)) => assert_eq!(m, "command timed out after 60s: sleep 100"),
        other => panic!("unexpected: {other:?}"),
    }
    match run_shell_output("x", Err(ShellFailure::Spawn("no sh".to_string()))) {
        Err(MidnaError::Tool(m)) => assert_eq!(m, "failed to run command: no sh"),
        other => panic!("unexpected: {other:?}"),
    }
}

#[test]
fn parent_directories_to_create() {
    assert_eq!(directory_to_create("nested/dir/hello.txt").as_deref(), Some("nested/dir"));
    assert_eq!(directory_to_create("/tmp/x").as_deref(), Some("/tmp"));
    assert_eq!(directory_to_create("hello.txt"), None);
    assert_eq!(directory_to_create(""), None);
    assert_eq!(directory_to_create("/"), None);
}

#[test]
fn schemas_name_each_member_once() {
    for kind in [ToolKind::ReadFile, ToolKind::WriteFile, ToolKind::ListDir, ToolKind::RunShell] {
        match kind.parameters() {
            JsonValue::Object(members) => {
                for (i, (a, _)) in members.iter().enumerate() {
                    for (b, _) in members.iter().skip(i + 1) {
                        assert_ne!(a, b);
                    }
                }
            }
            other => panic!("unexpected: {other:?}"),
        }
    }
}

#[test]
fn valid_utf8_output_is_reported_as_is() {
    let out = run_shell_output(
        "echo",
        Ok(CommandOutput { stdout: "hello\n".as_bytes().to_vec(), stderr: "é".as_bytes().to_vec(), code: Some(0) }),
    )
    .expect("ok");
    assert_eq!(out, "hello\n\n[stderr]\né\n[exit code: 0]");
}
