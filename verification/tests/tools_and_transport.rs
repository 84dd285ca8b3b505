use mcp_mysql_server::tools::{
    find_tool, parse_tool_call, tool_catalog, Argument, ArgumentValue, ParamKind, ToolFailure,
    ToolKind, SERVER_INSTRUCTIONS, SERVER_NAME,
};
use mcp_mysql_server::transport::{frame_message, health_check_step, HealthCheckStep};

fn text(name: &str, v: &str) -> Argument {
    Argument { name: name.to_string(), value: ArgumentValue::Text(v.to_string()) }
}

#[test]
fn unknown_tool_is_not_found() {
    match parse_tool_call("drop_everything", &vec![]) {
        Err(ToolFailure::NotFound(m)) => assert_eq!(m, "Tool drop_everything not found"),
        other => panic!("unexpected {:?}", other),
    }
}

#[test]
fn list_connections_needs_no_arguments() {
    let r = parse_tool_call("list_connections", &vec![]).unwrap();
    assert_eq!(r.tool, ToolKind::ListConnections);
    assert!(r.arguments.is_empty());
}

#[test]
fn first_missing_argument_is_reported() {
    match parse_tool_call("describe_table", &vec![text("table_name", "t")]) {
        Err(ToolFailure::InvalidParameters(m)) => assert_eq!(m, "Missing connection_name"),
        other => panic!("unexpected {:?}", other),
    }
    match parse_tool_call("describe_table", &vec![text("connection_name", "c"), text("table_name", "t")]) {
        Err(ToolFailure::InvalidParameters(m)) => assert_eq!(m, "Missing schema_name"),
        other => panic!("unexpected {:?}", other),
    }
}

#[test]
fn non_text_argument_counts_as_missing() {
    let args = vec![Argument { name: "connection_name".to_string(), value: ArgumentValue::Unsigned(3) }];
    match parse_tool_call("list_schemas", &args) {
        Err(ToolFailure::InvalidParameters(m)) => assert_eq!(m, "Missing connection_name"),
        other => panic!("unexpected {:?}", other),
    }
}

#[test]
fn execute_query_takes_optional_schema() {
    let r = parse_tool_call("execute_query", &vec![text("sql", "SELECT 1"), text("connection_name", "c")]).unwrap();
    assert_eq!(r.tool, ToolKind::ExecuteQuery);
    assert_eq!(r.arguments, vec!["c".to_string(), "SELECT 1".to_string()]);
    assert_eq!(r.schema, None);
    let r = parse_tool_call(
        "execute_ddl",
        &vec![text("connection_name", "c"), text("sql", "DROP TABLE t"), text("schema_name", "s")],
    )
    .unwrap();
    assert_eq!(r.schema, Some("s".to_string()));
}

#[test]
fn preview_limit_defaults_and_truncates() {
    let base = vec![text("connection_name", "c"), text("schema_name", "s"), text("table_name", "t")];
    assert_eq!(parse_tool_call("get_table_preview", &base).unwrap().limit, 10);
    let mut with_limit = base;
    with_limit.push(Argument { name: "limit".to_string(), value: ArgumentValue::Unsigned(5) });
    assert_eq!(parse_tool_call("get_table_preview", &with_limit).unwrap().limit, 5);
    with_limit.pop();
    with_limit.push(Argument { name: "limit".to_string(), value: ArgumentValue::Unsigned((1u64 << 32) + 7) });
    assert_eq!(parse_tool_call("get_table_preview", &with_limit).unwrap().limit, 7);
    with_limit.pop();
    with_limit.push(Argument { name: "limit".to_string(), value: ArgumentValue::Other });
    assert_eq!(parse_tool_call("get_table_preview", &with_limit).unwrap().limit, 10);
}

#[test]
fn schema_diff_arguments_in_order() {
    let args = vec![
        text("target_schema", "ts"),
        text("source_connection", "sc"),
        text("source_schema", "ss"),
        text("target_connection", "tc"),
    ];
    let r = parse_tool_call("generate_schema_diff", &args).unwrap();
    assert_eq!(r.arguments, vec!["sc".to_string(), "ss".to_string(), "tc".to_string(), "ts".to_string()]);
}

#[test]
fn catalog_lists_every_tool_once_and_calls_reach_it() {
    let catalog = tool_catalog();
    assert_eq!(catalog.len(), 17);
    let mut names: Vec<&str> = catalog.iter().map(|d| d.name).collect();
    names.sort();
    names.dedup();
    assert_eq!(names.len(), 17);
    for d in &catalog {
        assert_eq!(find_tool(d.name), Some(d.tool));
        let args: Vec<Argument> = d.required.iter().map(|k| text(k, "v")).collect();
        let r = parse_tool_call(d.name, &args).unwrap();
        assert_eq!(r.tool, d.tool);
        for p in &d.params {
            if d.required.contains(&p.name) {
                assert_eq!(p.kind, ParamKind::Text);
            }
        }
    }
    let preview = catalog.iter().find(|d| d.name == "get_table_preview").unwrap();
    let limit = preview.params.iter().find(|p| p.name == "limit").unwrap();
    assert_eq!(limit.kind, ParamKind::Integer);
    assert_eq!(limit.default, Some(10));
    let schemas = catalog.iter().find(|d| d.name == "list_schemas").unwrap();
    assert_eq!(schemas.params[0].description, Some("The name of the connection"));
    assert_eq!(catalog[0].description, "List all available database connections");
}

#[test]
fn server_identity() {
    assert_eq!(SERVER_NAME, "mcp-mysql-server");
    assert_eq!(SERVER_INSTRUCTIONS, "A MySQL MCP server that provides database access.");
}

#[test]
fn posted_messages_end_in_a_line_feed() {
    assert_eq!(frame_message(b"{}".to_vec()), b"{}\n".to_vec());
    assert_eq!(frame_message(b"{}\n".to_vec()), b"{}\n".to_vec());
    assert_eq!(frame_message(vec![]), b"\n".to_vec());
    let once = frame_message(b"x".to_vec());
    assert_eq!(frame_message(once.clone()), once);
}

#[test]
fn health_check_retries_until_connected() {
    assert_eq!(health_check_step(true), HealthCheckStep::Connected);
    assert_eq!(health_check_step(false), HealthCheckStep::RetryAfterSeconds(5));
}
