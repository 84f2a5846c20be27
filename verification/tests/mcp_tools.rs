use luminus::mcp::reply::{call_output, reply_step_for_line, tool_items};
use luminus::mcp::tools::{full_tool_name, reply_step, McpToolTable, ReplyStep};

#[test]
fn tools_are_named_by_server_and_tool() {
    assert_eq!(full_tool_name("fs", "read"), "mcp:fs:read");
}

#[test]
fn registering_again_replaces_in_place() {
    let mut table = McpToolTable::new();
    table.register("fs", "read", Some("reads files"));
    table.register("git", "log", None);
    table.register("fs", "read", Some("reads any file"));
    assert_eq!(
        table.listing(),
        vec![
            ("mcp:fs:read".to_string(), "reads any file".to_string()),
            ("mcp:git:log".to_string(), "MCP tool".to_string()),
        ]
    );
}

#[test]
fn calls_route_to_connected_servers_only() {
    let mut table = McpToolTable::default();
    table.register("fs", "read", None);
    let connected = vec!["fs".to_string()];
    assert_eq!(table.route("mcp:fs:read", &connected), Ok(("fs".to_string(), "read".to_string())));
    assert_eq!(table.route("mcp:fs:write", &connected), Err("Unknown MCP tool: mcp:fs:write".to_string()));
    assert_eq!(table.route("mcp:fs:read", &[]), Err("MCP server 'fs' is not connected".to_string()));
}

#[test]
fn replies_are_matched_to_their_request_by_id() {
    assert_eq!(reply_step(Some("a"), "a", None), ReplyStep::Done);
    assert_eq!(reply_step(Some("a"), "a", Some("{\"code\":1}".into())), ReplyStep::Failed("{\"code\":1}".into()));
    assert_eq!(reply_step(Some("b"), "a", Some("x".into())), ReplyStep::Skip);
    assert_eq!(reply_step(None, "a", None), ReplyStep::Skip);
}

#[test]
fn reply_lines_are_read_and_matched_by_id() {
    assert_eq!(reply_step_for_line("{\"jsonrpc\":\"2.0\",\"id\":\"a\",\"result\":{}}\n", "a"), ReplyStep::Done);
    assert_eq!(reply_step_for_line("{\"id\":\"b\",\"result\":{}}", "a"), ReplyStep::Skip);
    assert_eq!(reply_step_for_line("not json", "a"), ReplyStep::Skip);
    assert_eq!(reply_step_for_line("{\"method\":\"notify\"}", "a"), ReplyStep::Skip);
    assert_eq!(
        reply_step_for_line("{\"id\":\"a\",\"error\":{\"code\":-1}}", "a"),
        ReplyStep::Failed("{\"code\":-1}".into())
    );
}

#[test]
fn tool_call_output_joins_the_text_items() {
    let line = "{\"id\":\"a\",\"result\":{\"content\":[{\"type\":\"text\",\"text\":\"Called\"},{\"type\":\"image\"},{\"text\":\"two\"}]}}";
    assert_eq!(call_output(line), "Called\ntwo");
    assert_eq!(call_output("{\"id\":\"a\",\"result\":{}}"), "");
    assert_eq!(call_output("{\"id\":\"a\"}"), "");
}

#[test]
fn tool_lists_give_one_json_text_per_tool() {
    let line = "{\"id\":\"a\",\"result\":{\"tools\":[{\"name\":\"t\",\"description\":\"d\"},{\"name\":\"u\"}]}}";
    let items = tool_items(line);
    assert_eq!(items.len(), 2);
    assert!(items[0].contains("\"name\":\"t\""));
    assert!(tool_items("{\"id\":\"a\",\"result\":{}}").is_empty());
}
