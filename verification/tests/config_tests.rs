use peek::config::{
    connection_choices, AIConfig, ConnectionInfo, DatabaseConnection, PeekConfig, SSHConfig,
    Workspace,
};
use peek::json::encode_tool_result;
use peek::tools::{create_generate_query_tool, create_query_database_tool, query_tool};

#[test]
fn ai_defaults_name_a_model_and_an_endpoint() {
    let ai = AIConfig::default();
    assert_eq!(ai.model, "qwen3:8b");
    assert_eq!(ai.url, "http://localhost:11434");
}

#[test]
fn config_default_has_no_workspaces() {
    let conf = PeekConfig::default();
    assert!(conf.workspaces.is_empty());
    assert_eq!(conf.ai.model, "qwen3:8b");
    let ws = Workspace::default();
    assert!(ws.name.is_empty() && ws.connections.is_empty());
    let conn = DatabaseConnection::default();
    assert!(conn.name.is_empty() && conn.ssh.is_none());
    let ssh = SSHConfig::default();
    assert_eq!(ssh.port, 0);
    assert!(ssh.password.is_none() && ssh.ssh_key.is_none());
}

fn conn(name: &str, url: &str) -> DatabaseConnection {
    DatabaseConnection {
        name: name.to_string(),
        color: "green".to_string(),
        url: url.to_string(),
        ssh: None,
    }
}

#[test]
fn connection_choices_flatten_workspaces_in_order() {
    let conf = PeekConfig {
        workspaces: vec![
            Workspace {
                name: "prod".to_string(),
                connections: vec![conn("main", "postgres://prod/main")],
            },
            Workspace { name: "dev".to_string(), connections: vec![] },
            Workspace {
                name: "local".to_string(),
                connections: vec![
                    conn("a", "postgres://local/a"),
                    conn("b", "postgres://local/b"),
                ],
            },
        ],
        ai: AIConfig::default(),
    };
    let choices = connection_choices(&conf);
    let summary: Vec<(String, &str)> = choices
        .iter()
        .map(|c| (c.display_name(), c.connection_url()))
        .collect();
    assert_eq!(
        summary,
        vec![
            ("[prod] main".to_string(), "postgres://prod/main"),
            ("[local] a".to_string(), "postgres://local/a"),
            ("[local] b".to_string(), "postgres://local/b"),
        ]
    );
}

#[test]
fn display_name_brackets_the_workspace() {
    let info = ConnectionInfo {
        workspace_name: "team".to_string(),
        connection_name: "replica".to_string(),
        url: "postgres://x".to_string(),
    };
    assert_eq!(info.display_name(), "[team] replica");
}

#[test]
fn tool_result_encoding_escapes_the_content() {
    assert_eq!(
        encode_tool_result("id-1", "plain"),
        "{\"tool_call_id\":\"id-1\",\"content\":\"plain\"}"
    );
    assert_eq!(
        encode_tool_result("id\"2", "a \"quote\", a \\ backslash,\nnewline\ttab\rreturn"),
        "{\"tool_call_id\":\"id\\\"2\",\"content\":\"a \\\"quote\\\", a \\\\ backslash,\\nnewline\\ttab\\rreturn\"}"
    );
    assert_eq!(
        encode_tool_result("x", "ctrl:\u{1}\u{1f}"),
        "{\"tool_call_id\":\"x\",\"content\":\"ctrl:\\u0001\\u001f\"}"
    );
}

#[test]
fn the_bundled_tools_describe_their_parameters() {
    let q = query_tool();
    assert_eq!(q.name, "execute_query");
    assert_eq!(q.parameters.len(), 3);
    assert_eq!(q.parameters[0], ("type".to_string(), "\"object\"".to_string()));
    assert_eq!(q.parameters[2], ("required".to_string(), "[\"query\"]".to_string()));
    assert!(q.parameters[1].1.contains("\"query\""));

    let qd = create_query_database_tool();
    assert_eq!(qd.name, "query_database");
    let gq = create_generate_query_tool();
    assert_eq!(gq.name, "generate_query");
    assert_eq!(gq.parameters[2], ("required".to_string(), "[\"description\"]".to_string()));
}
