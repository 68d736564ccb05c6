use mcp_config::entry::{parse_server_config, server_to_json, ClaudeCodeServer};
use mcp_config::json::{Field, Json};
use mcp_config::store::{claude_mcp_add, claude_mcp_get, claude_mcp_list, claude_mcp_remove, config_has_global_mcp_servers, ErrorKind};

fn obj(fields: Vec<(&str, Json)>) -> Json {
    Json::Object(fields.into_iter().map(|(k, v)| Field { key: k.to_string(), value: v }).collect())
}

fn text(s: &str) -> Json {
    Json::Str(s.to_string())
}

fn member<'a>(v: &'a Json, key: &str) -> Option<&'a Json> {
    match v {
        Json::Object(fields) => fields.iter().rev().find(|f| f.key == key).map(|f| &f.value),
        _ => None,
    }
}

fn sentry() -> ClaudeCodeServer {
    ClaudeCodeServer {
        name: "sentry".to_string(),
        server_type: "http".to_string(),
        url: Some("https://mcp.sentry.dev/mcp".to_string()),
        command: None,
        args: None,
        env: None,
    }
}

fn airtable() -> ClaudeCodeServer {
    ClaudeCodeServer {
        name: "airtable".to_string(),
        server_type: "stdio".to_string(),
        url: None,
        command: Some("npx".to_string()),
        args: Some(vec!["-y".to_string(), "airtable-mcp-server".to_string()]),
        env: Some(vec![("AIRTABLE_API_KEY".to_string(), "YOUR_KEY".to_string())]),
    }
}

fn same(a: &ClaudeCodeServer, b: &ClaudeCodeServer) -> bool {
    a.name == b.name
        && a.server_type == b.server_type
        && a.url == b.url
        && a.command == b.command
        && a.args == b.args
        && a.env == b.env
}

#[test]
fn add_to_empty_document_then_list_global() {
    let (doc, resp) = claude_mcp_add(obj(vec![]), &sentry(), "Global").ok().unwrap();
    assert!(resp.success);
    assert_eq!(resp.message, "Server 'sentry' added to user config successfully");
    let listed = claude_mcp_list(&doc, "Global");
    assert_eq!(listed.len(), 1);
    assert_eq!(listed[0].name, "sentry");
    assert_eq!(listed[0].server_type, "http");
    assert_eq!(listed[0].url, Some("https://mcp.sentry.dev/mcp".to_string()));
    assert_eq!(listed[0].command, None);
    assert_eq!(listed[0].args, None);
    assert_eq!(listed[0].env, None);
}

#[test]
fn remove_missing_entry_names_user_scope() {
    let r = claude_mcp_remove(obj(vec![]), "airtable", "Global");
    let e = r.err().unwrap();
    assert_eq!(e.kind, ErrorKind::NotFound);
    assert_eq!(e.message, "Server 'airtable' not found in user config");
    assert!(e.message.contains("user"));
}

#[test]
fn get_after_add_returns_the_entry() {
    for scope in ["Global", "Global (Windows)", "Global (WSL)", "/home/u/proj", "C:\\work\\proj"] {
        let (doc, _) = claude_mcp_add(obj(vec![]), &airtable(), scope).ok().unwrap();
        let got = claude_mcp_get(&doc, "airtable", scope).ok().unwrap();
        assert!(same(&got, &airtable()));
    }
}

#[test]
fn get_after_remove_is_not_found() {
    let (doc, _) = claude_mcp_add(obj(vec![]), &airtable(), "/home/u/proj").ok().unwrap();
    let (doc, resp) = claude_mcp_remove(doc, "airtable", "/home/u/proj").ok().unwrap();
    assert_eq!(resp.message, "Server 'airtable' removed from project config successfully");
    let e = claude_mcp_get(&doc, "airtable", "/home/u/proj").err().unwrap();
    assert_eq!(e.kind, ErrorKind::NotFound);
    assert_eq!(e.message, "Server 'airtable' not found");
}

#[test]
fn add_twice_overwrites_and_lists_once() {
    let (doc, _) = claude_mcp_add(obj(vec![]), &airtable(), "Global").ok().unwrap();
    let mut changed = airtable();
    changed.command = Some("node".to_string());
    let (doc, _) = claude_mcp_add(doc, &changed, "Global").ok().unwrap();
    let listed = claude_mcp_list(&doc, "Global");
    assert_eq!(listed.iter().filter(|s| s.name == "airtable").count(), 1);
    assert_eq!(listed[0].command, Some("node".to_string()));
}

#[test]
fn add_keeps_unrelated_keys() {
    let doc = obj(vec![
        ("numStartups", Json::Number("12".to_string())),
        ("mcpServers", obj(vec![("old", obj(vec![("type", text("sse")), ("url", text("http://x"))]))])),
        (
            "projects",
            obj(vec![
                ("/a", obj(vec![("allowedTools", Json::Array(vec![text("Bash")])), ("mcpServers", obj(vec![]))])),
                ("/b", obj(vec![("history", Json::Array(vec![]))])),
            ]),
        ),
    ]);
    let (doc, resp) = claude_mcp_add(doc, &sentry(), "/a").ok().unwrap();
    assert_eq!(resp.message, "Server 'sentry' added to project config successfully");
    assert!(matches!(member(&doc, "numStartups"), Some(Json::Number(n)) if n == "12"));
    assert_eq!(claude_mcp_list(&doc, "Global").len(), 1);
    assert_eq!(claude_mcp_list(&doc, "Global")[0].name, "old");
    let projects = member(&doc, "projects").unwrap();
    let a = member(projects, "/a").unwrap();
    assert!(matches!(member(a, "allowedTools"), Some(Json::Array(items)) if items.len() == 1));
    let b = member(projects, "/b").unwrap();
    assert!(matches!(member(b, "history"), Some(Json::Array(items)) if items.is_empty()));
    let listed = claude_mcp_list(&doc, "/a");
    assert_eq!(listed.len(), 1);
    assert!(same(&listed[0], &sentry()));
}

#[test]
fn add_to_non_object_root_is_malformed() {
    let e = claude_mcp_add(Json::Array(vec![]), &sentry(), "Global").err().unwrap();
    assert_eq!(e.kind, ErrorKind::MalformedDocument);
}

#[test]
fn project_scope_is_created_when_missing() {
    let doc = obj(vec![("projects", text("not an object"))]);
    let (doc, _) = claude_mcp_add(doc, &sentry(), "/home/u/proj").ok().unwrap();
    let listed = claude_mcp_list(&doc, "/home/u/proj");
    assert_eq!(listed.len(), 1);
    assert!(claude_mcp_list(&doc, "Global").is_empty());
}

#[test]
fn list_of_missing_scope_is_empty() {
    assert!(claude_mcp_list(&obj(vec![]), "/nowhere").is_empty());
    assert!(claude_mcp_list(&Json::Null, "Global").is_empty());
}

#[test]
fn parse_defaults_and_drops_bad_fields() {
    let value = obj(vec![
        ("url", Json::Number("3".to_string())),
        ("command", text("uvx")),
        ("args", Json::Array(vec![text("a"), Json::Bool(true), text("b")])),
        ("env", obj(vec![("K", text("V")), ("N", Json::Null)])),
    ]);
    let s = parse_server_config("tool", &value);
    assert_eq!(s.name, "tool");
    assert_eq!(s.server_type, "stdio");
    assert_eq!(s.url, None);
    assert_eq!(s.command, Some("uvx".to_string()));
    assert_eq!(s.args, Some(vec!["a".to_string(), "b".to_string()]));
    assert_eq!(s.env, Some(vec![("K".to_string(), "V".to_string())]));
    let other = parse_server_config("x", &text("just text"));
    assert_eq!(other.server_type, "stdio");
    assert_eq!(other.args, None);
}

#[test]
fn stored_form_reads_back() {
    let j = server_to_json(&airtable());
    assert!(matches!(member(&j, "type"), Some(Json::Str(t)) if t == "stdio"));
    assert!(matches!(member(&j, "command"), Some(Json::Str(t)) if t == "npx"));
    assert!(member(&j, "url").is_none());
    assert!(member(&j, "name").is_none());
    assert!(same(&parse_server_config("airtable", &j), &airtable()));
}

#[test]
fn unknown_kind_is_kept() {
    let mut s = sentry();
    s.server_type = "websocket".to_string();
    let (doc, _) = claude_mcp_add(obj(vec![]), &s, "Global").ok().unwrap();
    assert_eq!(claude_mcp_get(&doc, "sentry", "Global").ok().unwrap().server_type, "websocket");
}

#[test]
fn global_servers_presence() {
    assert!(!config_has_global_mcp_servers(&obj(vec![])));
    assert!(!config_has_global_mcp_servers(&obj(vec![("mcpServers", obj(vec![]))])));
    assert!(!config_has_global_mcp_servers(&obj(vec![("mcpServers", text("x"))])));
    let (doc, _) = claude_mcp_add(obj(vec![]), &sentry(), "Global (Windows)").ok().unwrap();
    assert!(config_has_global_mcp_servers(&doc));
    let (doc, _) = claude_mcp_add(obj(vec![]), &sentry(), "/p").ok().unwrap();
    assert!(!config_has_global_mcp_servers(&doc));
}

#[test]
fn null_root_reads_as_empty() {
    let (doc, _) = claude_mcp_add(Json::Null, &sentry(), "Global").ok().unwrap();
    assert_eq!(claude_mcp_list(&doc, "Global").len(), 1);
}

#[test]
fn stored_form_is_exact() {
    let (doc, _) = claude_mcp_add(obj(vec![]), &sentry(), "Global").ok().unwrap();
    let servers = member(&doc, "mcpServers").unwrap();
    match member(servers, "sentry").unwrap() {
        Json::Object(fields) => {
            let keys: Vec<&str> = fields.iter().map(|f| f.key.as_str()).collect();
            assert_eq!(keys, vec!["type", "url"]);
        }
        _ => panic!("stored entry is not an object"),
    }
    match server_to_json(&airtable()) {
        Json::Object(fields) => {
            let keys: Vec<&str> = fields.iter().map(|f| f.key.as_str()).collect();
            assert_eq!(keys, vec!["type", "command", "args", "env"]);
            assert!(matches!(&fields[2].value, Json::Array(items) if items.len() == 2));
        }
        _ => panic!("stored entry is not an object"),
    }
}
