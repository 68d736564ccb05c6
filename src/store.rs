use vstd::prelude::*;
use crate::entry::{ClaudeCodeServer, ClaudeCodeResponse, ServerView, entry_model, stored_form, parse_server_config, server_to_json};
use crate::json::{Json, Field, lookup, without, count_key, unique_keys, field_of, field_in, members, get_field, take_field, put_field};
use crate::scope::{is_global_scope, is_global_config};

verus! {

/// The kinds of failure the configuration store reports.
#[derive(PartialEq, Eq, Structural, Clone, Copy, Debug)]
pub enum ErrorKind {
    HomeDirectoryUnavailable,
    NestedEnvironmentUnavailable,
    Unreadable,
    MalformedDocument,
    WriteFailed,
    NotFound,
    BackupFailed,
}

/// A failure, with a message for the user.
pub struct StoreError {
    pub kind: ErrorKind,
    pub message: String,
}

/// The word a message uses for the scope: "user" for a global one, else "project".
pub open spec fn scope_word(working_dir: Seq<char>) -> Seq<char> {
    if is_global_scope(working_dir) {
        "user"@
    } else {
        "project"@
    }
}

pub open spec fn added_message(name: Seq<char>, scope: Seq<char>) -> Seq<char> {
    "Server '"@ + name + "' added to "@ + scope + " config successfully"@
}

pub open spec fn removed_message(name: Seq<char>, scope: Seq<char>) -> Seq<char> {
    "Server '"@ + name + "' removed from "@ + scope + " config successfully"@
}

pub open spec fn absent_message(name: Seq<char>, scope: Seq<char>) -> Seq<char> {
    "Server '"@ + name + "' not found in "@ + scope + " config"@
}

pub open spec fn unknown_message(name: Seq<char>) -> Seq<char> {
    "Server '"@ + name + "' not found"@
}

/// The stored value of the project `working_dir`.
pub open spec fn project_of(doc: Json, working_dir: Seq<char>) -> Option<Json> {
    field_in(field_of(doc, "projects"@), working_dir)
}

/// The server map of a scope: the root "mcpServers" object for a global
/// scope, else the "mcpServers" object of the project; `None` where it is
/// missing or not an object.
pub open spec fn scope_fields(doc: Json, working_dir: Seq<char>) -> Option<Seq<Field>> {
    if is_global_scope(working_dir) {
        members(field_of(doc, "mcpServers"@))
    } else {
        members(field_in(project_of(doc, working_dir), "mcpServers"@))
    }
}

/// The server map of a scope, empty where there is none.
pub open spec fn scope_map(doc: Json, working_dir: Seq<char>) -> Seq<Field> {
    match scope_fields(doc, working_dir) {
        Some(m) => m,
        None => Seq::empty(),
    }
}

/// The entries of a server map, in their order.
pub open spec fn entries_of(m: Seq<Field>) -> Seq<ServerView> {
    m.map_values(|f: Field| entry_model(f.key@, f.value))
}

/// The entries that a scope lists.
pub open spec fn scope_entries(doc: Json, working_dir: Seq<char>) -> Seq<ServerView> {
    entries_of(scope_map(doc, working_dir))
}

/// The entry stored under `name` in a scope.
pub open spec fn find_entry(doc: Json, name: Seq<char>, working_dir: Seq<char>) -> Option<ServerView> {
    match lookup(scope_map(doc, working_dir), name) {
        Some(v) => Some(entry_model(name, v)),
        None => None,
    }
}

/// Outside the part of the document that a change of the scope's server map
/// touches, `new` reads as `old`.
pub open spec fn untouched(old: Json, new: Json, working_dir: Seq<char>) -> bool {
    if is_global_scope(working_dir) {
        forall|k: Seq<char>| k != "mcpServers"@ ==> #[trigger] field_of(new, k) == field_of(old, k)
    } else {
        &&& forall|k: Seq<char>| k != "projects"@ ==> #[trigger] field_of(new, k) == field_of(old, k)
        &&& forall|p: Seq<char>|
            p != working_dir ==> #[trigger] project_of(new, p) == project_of(old, p)
        &&& forall|k: Seq<char>|
            k != "mcpServers"@ ==> #[trigger] field_in(project_of(new, working_dir), k) == field_in(
                project_of(old, working_dir),
                k,
            )
    }
}

/// `new` is `old` with `entry` stored in the scope, in exactly its stored
/// form, replacing whole any entry of that name, and nothing else changed.
pub open spec fn added_to(old: Json, new: Json, working_dir: Seq<char>, entry: ServerView) -> bool {
    &&& new is Object
    &&& scope_fields(new, working_dir) is Some
    &&& scope_map(new, working_dir).len() > 0
    &&& scope_map(new, working_dir).drop_last() == without(scope_map(old, working_dir), entry.name)
    &&& scope_map(new, working_dir).last().key@ == entry.name
    &&& (unique_keys(scope_map(old, working_dir)) ==> unique_keys(scope_map(new, working_dir)))
    &&& stored_form(entry, scope_map(new, working_dir).last().value)
    &&& entry_model(entry.name, scope_map(new, working_dir).last().value) == entry
    &&& untouched(old, new, working_dir)
}

/// `new` is `old` with the entry `name` taken out of the scope, and nothing
/// else changed.
pub open spec fn removed_from(old: Json, new: Json, working_dir: Seq<char>, name: Seq<char>) -> bool {
    &&& scope_fields(new, working_dir) == Some(without(scope_map(old, working_dir), name))
    &&& untouched(old, new, working_dir)
}

fn message3(a: &str, name: &str, b: &str, scope: &str, c: &str) -> (r: String)
    ensures
        r@ == a@ + name@ + b@ + scope@ + c@,
{
    let mut m = String::from_str(a);
    m.append(name);
    m.append(b);
    m.append(scope);
    m.append(c);
    m
}

fn message1(a: &str, name: &str, b: &str) -> (r: String)
    ensures
        r@ == a@ + name@ + b@,
{
    let mut m = String::from_str(a);
    m.append(name);
    m.append(b);
    m
}

fn scope_label(working_dir: &str) -> (r: &'static str)
    ensures
        r@ == scope_word(working_dir@),
{
    if is_global_config(working_dir) {
        "user"
    } else {
        "project"
    }
}

/// The server map of a scope, where there is one.
fn scope_members<'a>(config: &'a Json, working_dir: &str) -> (r: Option<&'a Vec<Field>>)
    ensures
        match r {
            Some(m) => scope_fields(*config, working_dir@) == Some(m@),
            None => scope_fields(*config, working_dir@) is None,
        },
{
    let root = match config {
        Json::Object(root) => root,
        _ => {
            return None;
        },
    };
    let servers = if is_global_config(working_dir) {
        get_field(root, "mcpServers")
    } else {
        match get_field(root, "projects") {
            Some(Json::Object(projects)) => match get_field(projects, working_dir) {
                Some(Json::Object(project)) => get_field(project, "mcpServers"),
                _ => None,
            },
            _ => None,
        }
    };
    match servers {
        Some(Json::Object(m)) => Some(m),
        _ => None,
    }
}

/// True when the document's root "mcpServers" member is an object with at
/// least one member.
pub fn config_has_global_mcp_servers(config: &Json) -> (r: bool)
    ensures
        r == (members(field_of(*config, "mcpServers"@)) matches Some(m) && m.len() > 0),
{
    match config {
        Json::Object(root) => match get_field(root, "mcpServers") {
            Some(Json::Object(m)) => m.len() > 0,
            _ => false,
        },
        _ => false,
    }
}

/// Lists the servers of a scope; a scope without a server map lists none.
pub fn claude_mcp_list(config: &Json, working_dir: &str) -> (r: Vec<ClaudeCodeServer>)
    ensures
        r@.map_values(|s: ClaudeCodeServer| s@) == scope_entries(*config, working_dir@),
{
    let mut out: Vec<ClaudeCodeServer> = Vec::new();
    if let Some(m) = scope_members(config, working_dir) {
        let mut i: usize = 0;
        while i < m.len()
            invariant
                i <= m@.len(),
                scope_map(*config, working_dir@) == m@,
                out@.map_values(|s: ClaudeCodeServer| s@) == entries_of(m@.subrange(0, i as int)),
            decreases m@.len() - i,
        {
            let s = parse_server_config(m[i].key.as_str(), &m[i].value);
            let ghost before = out@;
            out.push(s);
            assert(out@.map_values(|s: ClaudeCodeServer| s@) == before.map_values(
                |s: ClaudeCodeServer| s@,
            ).push(s@));
            assert(entries_of(m@.subrange(0, i + 1)) == entries_of(m@.subrange(0, i as int)).push(
                entry_model(m@[i as int].key@, m@[i as int].value),
            ));
            i = i + 1;
        }
        assert(m@.subrange(0, m@.len() as int) == m@);
    } else {
        assert(out@.map_values(|s: ClaudeCodeServer| s@) == Seq::<ServerView>::empty());
    }
    out
}

/// The server stored under `name` in a scope.
pub fn claude_mcp_get(config: &Json, name: &str, working_dir: &str) -> (r: Result<ClaudeCodeServer, StoreError>)
    ensures
        match r {
            Ok(s) => find_entry(*config, name@, working_dir@) == Some(s@),
            Err(e) => find_entry(*config, name@, working_dir@) is None && e.kind == ErrorKind::NotFound
                && e.message@ == unknown_message(name@),
        },
{
    if let Some(m) = scope_members(config, working_dir) {
        if let Some(v) = get_field(m, name) {
            return Ok(parse_server_config(name, v));
        }
    }
    Err(StoreError { kind: ErrorKind::NotFound, message: message1("Server '", name, "' not found") })
}

fn object_members(v: Option<Json>) -> (r: Vec<Field>)
    ensures
        r@ == match members(v) {
            Some(m) => m,
            None => Seq::empty(),
        },
{
    match v {
        Some(Json::Object(m)) => m,
        _ => Vec::new(),
    }
}

/// Stores `request` in the scope `working_dir`, replacing an entry of the same
/// name and creating the enclosing objects where they are missing. The root
/// must be an object, or `null`, which reads as an empty object.
pub fn claude_mcp_add(config: Json, request: &ClaudeCodeServer, working_dir: &str) -> (r: Result<
    (Json, ClaudeCodeResponse),
    StoreError,
>)
    ensures
        match r {
            Ok((doc, resp)) => (config is Object || config is Null) && added_to(
                config,
                doc,
                working_dir@,
                request@,
            ) && resp.success && resp.message@ == added_message(request.name@, scope_word(working_dir@)),
            Err(e) => !(config is Object || config is Null) && e.kind == ErrorKind::MalformedDocument,
        },
{
    let ghost old = config;
    let root = match config {
        Json::Object(root) => root,
        Json::Null => Vec::new(),
        _ => {
            return Err(
                StoreError {
                    kind: ErrorKind::MalformedDocument,
                    message: String::from_str("config is not a JSON object"),
                },
            );
        },
    };
    let value = server_to_json(request);
    let doc = if is_global_config(working_dir) {
        let (rest, servers) = take_field(root, "mcpServers");
        let m = put_field(object_members(servers), request.name.clone(), value);
        proof {
            crate::json::lemma_lookup_without_all(root@, "mcpServers"@);
        }
        Json::Object(put_field(rest, String::from_str("mcpServers"), Json::Object(m)))
    } else {
        let (rest, projects) = take_field(root, "projects");
        let all_projects = object_members(projects);
        let ghost all_projects_view = all_projects@;
        let (other_projects, project) = take_field(all_projects, working_dir);
        let project_fields = object_members(project);
        let ghost project_view = project_fields@;
        let (project_rest, servers) = take_field(project_fields, "mcpServers");
        let m = put_field(object_members(servers), request.name.clone(), value);
        let p = put_field(project_rest, String::from_str("mcpServers"), Json::Object(m));
        let ps = put_field(other_projects, String::from_str(working_dir), Json::Object(p));
        proof {
            crate::json::lemma_lookup_without_all(root@, "projects"@);
            crate::json::lemma_lookup_without_all(all_projects_view, working_dir@);
            crate::json::lemma_lookup_without_all(project_view, "mcpServers"@);
        }
        Json::Object(put_field(rest, String::from_str("projects"), Json::Object(ps)))
    };
    let resp = ClaudeCodeResponse {
        success: true,
        message: message3(
            "Server '",
            request.name.as_str(),
            "' added to ",
            scope_label(working_dir),
            " config successfully",
        ),
    };
    Ok((doc, resp))
}

/// Takes the entry `name` out of the scope `working_dir`; fails with
/// `NotFound` where the scope holds no such entry.
pub fn claude_mcp_remove(config: Json, name: &str, working_dir: &str) -> (r: Result<
    (Json, ClaudeCodeResponse),
    StoreError,
>)
    ensures
        match r {
            Ok((doc, resp)) => lookup(scope_map(config, working_dir@), name@) is Some && removed_from(
                config,
                doc,
                working_dir@,
                name@,
            ) && resp.success && resp.message@ == removed_message(name@, scope_word(working_dir@)),
            Err(e) => lookup(scope_map(config, working_dir@), name@) is None && e.kind
                == ErrorKind::NotFound && e.message@ == absent_message(name@, scope_word(working_dir@)),
        },
{
    let found = match scope_members(&config, working_dir) {
        Some(m) => get_field(m, name).is_some(),
        None => false,
    };
    if !found {
        return Err(
            StoreError {
                kind: ErrorKind::NotFound,
                message: message3("Server '", name, "' not found in ", scope_label(working_dir), " config"),
            },
        );
    }
    let root = match config {
        Json::Object(root) => root,
        _ => {
            return Err(
                StoreError {
                    kind: ErrorKind::NotFound,
                    message: message3("Server '", name, "' not found in ", scope_label(working_dir), " config"),
                },
            );
        },
    };
    let doc = if is_global_config(working_dir) {
        let (rest, servers) = take_field(root, "mcpServers");
        let (m, _) = take_field(object_members(servers), name);
        proof {
            crate::json::lemma_lookup_without_all(root@, "mcpServers"@);
        }
        Json::Object(put_field(rest, String::from_str("mcpServers"), Json::Object(m)))
    } else {
        let (rest, projects) = take_field(root, "projects");
        let all_projects = object_members(projects);
        let ghost all_projects_view = all_projects@;
        let (other_projects, project) = take_field(all_projects, working_dir);
        let project_fields = object_members(project);
        let ghost project_view = project_fields@;
        let (project_rest, servers) = take_field(project_fields, "mcpServers");
        let (m, _) = take_field(object_members(servers), name);
        let p = put_field(project_rest, String::from_str("mcpServers"), Json::Object(m));
        let ps = put_field(other_projects, String::from_str(working_dir), Json::Object(p));
        proof {
            crate::json::lemma_lookup_without_all(root@, "projects"@);
            crate::json::lemma_lookup_without_all(all_projects_view, working_dir@);
            crate::json::lemma_lookup_without_all(project_view, "mcpServers"@);
        }
        Json::Object(put_field(rest, String::from_str("projects"), Json::Object(ps)))
    };
    let resp = ClaudeCodeResponse {
        success: true,
        message: message3("Server '", name, "' removed from ", scope_label(working_dir), " config successfully"),
    };
    Ok((doc, resp))
}

/// How many entries of a listing carry `name`.
pub open spec fn count_named(entries: Seq<ServerView>, name: Seq<char>) -> nat
    decreases entries.len(),
{
    if entries.len() == 0 {
        0
    } else {
        count_named(entries.drop_last(), name) + if entries.last().name == name { 1nat } else { 0nat }
    }
}

proof fn lemma_count_named(m: Seq<Field>, name: Seq<char>)
    ensures
        count_named(entries_of(m), name) == count_key(m, name),
    decreases m.len(),
{
    if m.len() > 0 {
        lemma_count_named(m.drop_last(), name);
        assert(entries_of(m).drop_last() == entries_of(m.drop_last()));
    }
}

/// An entry that was added reads back, field for field, as it was given.
pub proof fn law_get_after_add(old: Json, new: Json, working_dir: Seq<char>, entry: ServerView)
    requires
        added_to(old, new, working_dir, entry),
    ensures
        find_entry(new, entry.name, working_dir) == Some(entry),
{
}

/// After an entry was removed, looking it up in that scope finds nothing.
pub proof fn law_get_after_remove(old: Json, new: Json, working_dir: Seq<char>, name: Seq<char>)
    requires
        removed_from(old, new, working_dir, name),
    ensures
        find_entry(new, name, working_dir) is None,
{
    crate::json::lemma_lookup_without(scope_map(old, working_dir), name, name);
}

/// After an add, the scope lists exactly one entry of that name, whether or
/// not the name was there before.
pub proof fn law_add_lists_name_once(old: Json, new: Json, working_dir: Seq<char>, entry: ServerView)
    requires
        added_to(old, new, working_dir, entry),
    ensures
        count_named(scope_entries(new, working_dir), entry.name) == 1,
{
    let m = scope_map(new, working_dir);
    crate::json::lemma_lookup_without(scope_map(old, working_dir), entry.name, entry.name);
    lemma_count_named(m, entry.name);
    assert(m.drop_last() == without(scope_map(old, working_dir), entry.name));
}

/// An add changes the document in one place only: every other entry of the
/// scope, and everything outside the scope's server map, reads as before.
pub proof fn law_add_keeps_the_rest(old: Json, new: Json, working_dir: Seq<char>, entry: ServerView)
    requires
        added_to(old, new, working_dir, entry),
    ensures
        forall|k: Seq<char>|
            k != entry.name ==> #[trigger] lookup(scope_map(new, working_dir), k) == lookup(
                scope_map(old, working_dir),
                k,
            ),
        untouched(old, new, working_dir),
{
    let m = scope_map(new, working_dir);
    crate::json::lemma_lookup_without_all(scope_map(old, working_dir), entry.name);
    assert forall|k: Seq<char>| k != entry.name implies #[trigger] lookup(m, k) == lookup(
        scope_map(old, working_dir),
        k,
    ) by {
        assert(lookup(m, k) == lookup(m.drop_last(), k));
    }
}

} // verus!
