use vstd::prelude::*;
use crate::json::{Json, Field, lookup, field_of, get_field, push_field};

verus! {

/// One configured server. `server_type` is "http", "sse" or "stdio"; other
/// kinds are kept as they are.
pub struct ClaudeCodeServer {
    pub name: String,
    pub server_type: String,
    pub url: Option<String>,
    pub command: Option<String>,
    pub args: Option<Vec<String>>,
    pub env: Option<Vec<(String, String)>>,
}

/// The outcome of a change to the configuration, with a message for the user.
pub struct ClaudeCodeResponse {
    pub success: bool,
    pub message: String,
}

/// What a server entry holds, as plain sequences.
pub struct ServerView {
    pub name: Seq<char>,
    pub server_type: Seq<char>,
    pub url: Option<Seq<char>>,
    pub command: Option<Seq<char>>,
    pub args: Option<Seq<Seq<char>>>,
    pub env: Option<Seq<(Seq<char>, Seq<char>)>>,
}

pub open spec fn opt_view(s: Option<String>) -> Option<Seq<char>> {
    match s {
        Some(x) => Some(x@),
        None => None,
    }
}

pub open spec fn strings_view(v: Seq<String>) -> Seq<Seq<char>> {
    v.map_values(|s: String| s@)
}

pub open spec fn pairs_view(v: Seq<(String, String)>) -> Seq<(Seq<char>, Seq<char>)> {
    v.map_values(|p: (String, String)| (p.0@, p.1@))
}

impl View for ClaudeCodeServer {
    type V = ServerView;

    open spec fn view(&self) -> ServerView {
        ServerView {
            name: self.name@,
            server_type: self.server_type@,
            url: opt_view(self.url),
            command: opt_view(self.command),
            args: match self.args {
                Some(a) => Some(strings_view(a@)),
                None => None,
            },
            env: match self.env {
                Some(e) => Some(pairs_view(e@)),
                None => None,
            },
        }
    }
}

/// The text of a value that is a JSON string.
pub open spec fn text_of(v: Option<Json>) -> Option<Seq<char>> {
    match v {
        Some(Json::Str(s)) => Some(s@),
        _ => None,
    }
}

/// The string items of an array, in order; other items are skipped.
pub open spec fn texts_of(items: Seq<Json>) -> Seq<Seq<char>>
    decreases items.len(),
{
    if items.len() == 0 {
        Seq::empty()
    } else {
        match items.last() {
            Json::Str(s) => texts_of(items.drop_last()).push(s@),
            _ => texts_of(items.drop_last()),
        }
    }
}

/// The members of an object whose value is a string, in order.
pub open spec fn text_pairs_of(fields: Seq<Field>) -> Seq<(Seq<char>, Seq<char>)>
    decreases fields.len(),
{
    if fields.len() == 0 {
        Seq::empty()
    } else {
        match fields.last().value {
            Json::Str(s) => text_pairs_of(fields.drop_last()).push((fields.last().key@, s@)),
            _ => text_pairs_of(fields.drop_last()),
        }
    }
}

/// The entry that the stored value `v` describes under `name`: a missing
/// kind reads as "stdio", and a member of the wrong shape reads as absent.
pub open spec fn entry_model(name: Seq<char>, v: Json) -> ServerView {
    ServerView {
        name,
        server_type: match text_of(field_of(v, "type"@)) {
            Some(t) => t,
            None => "stdio"@,
        },
        url: text_of(field_of(v, "url"@)),
        command: text_of(field_of(v, "command"@)),
        args: match field_of(v, "args"@) {
            Some(Json::Array(items)) => Some(texts_of(items@)),
            _ => None,
        },
        env: match field_of(v, "env"@) {
            Some(Json::Object(fields)) => Some(text_pairs_of(fields@)),
            _ => None,
        },
    }
}

fn text_field(v: &Json, key: &str) -> (r: Option<String>)
    ensures
        opt_view(r) == text_of(field_of(*v, key@)),
{
    match v {
        Json::Object(fields) => match get_field(fields, key) {
            Some(Json::Str(s)) => Some(s.clone()),
            _ => None,
        },
        _ => None,
    }
}

/// Reads a stored server value under `name`, taking what is well formed.
pub fn parse_server_config(name: &str, config: &Json) -> (r: ClaudeCodeServer)
    ensures
        r@ == entry_model(name@, *config),
{
    let server_type = match text_field(config, "type") {
        Some(t) => t,
        None => String::from_str("stdio"),
    };
    let url = text_field(config, "url");
    let command = text_field(config, "command");
    let mut args: Option<Vec<String>> = None;
    let mut env: Option<Vec<(String, String)>> = None;
    if let Json::Object(fields) = config {
        if let Some(Json::Array(items)) = get_field(fields, "args") {
            let mut out: Vec<String> = Vec::new();
            let mut i: usize = 0;
            while i < items.len()
                invariant
                    i <= items@.len(),
                    strings_view(out@) == texts_of(items@.subrange(0, i as int)),
                decreases items@.len() - i,
            {
                assert(items@.subrange(0, i + 1).drop_last() == items@.subrange(0, i as int));
                if let Json::Str(s) = &items[i] {
                    out.push(s.clone());
                }
                i = i + 1;
            }
            assert(items@.subrange(0, items@.len() as int) == items@);
            args = Some(out);
        }
        if let Some(Json::Object(members)) = get_field(fields, "env") {
            let mut out: Vec<(String, String)> = Vec::new();
            let mut i: usize = 0;
            while i < members.len()
                invariant
                    i <= members@.len(),
                    pairs_view(out@) == text_pairs_of(members@.subrange(0, i as int)),
                decreases members@.len() - i,
            {
                assert(members@.subrange(0, i + 1).drop_last() == members@.subrange(0, i as int));
                if let Json::Str(s) = &members[i].value {
                    out.push((members[i].key.clone(), s.clone()));
                }
                i = i + 1;
            }
            assert(members@.subrange(0, members@.len() as int) == members@);
            env = Some(out);
        }
    }
    let r = ClaudeCodeServer { name: String::from_str(name), server_type, url, command, args, env };
    r
}

/// `v` is the JSON string `t`.
pub open spec fn is_text(v: Json, t: Seq<char>) -> bool {
    v matches Json::Str(s) && s@ == t
}

/// `v` is an array of exactly the strings `a`, in order.
pub open spec fn is_text_array(v: Json, a: Seq<Seq<char>>) -> bool {
    v matches Json::Array(items) && items@.len() == a.len() && forall|i: int|
        0 <= i < a.len() ==> is_text(#[trigger] items@[i], a[i])
}

/// `v` is an object of exactly the members `e`, in order, each a string.
pub open spec fn is_text_object(v: Json, e: Seq<(Seq<char>, Seq<char>)>) -> bool {
    v matches Json::Object(m) && m@.len() == e.len() && forall|i: int|
        0 <= i < e.len() ==> (#[trigger] m@[i]).key@ == e[i].0 && is_text(m@[i].value, e[i].1)
}

/// The member names of an entry's stored form, in order: "type", then each
/// optional field that is present.
pub open spec fn stored_keys(s: ServerView) -> Seq<Seq<char>> {
    let k1 = seq!["type"@];
    let k2 = if s.url is Some { k1.push("url"@) } else { k1 };
    let k3 = if s.command is Some { k2.push("command"@) } else { k2 };
    let k4 = if s.args is Some { k3.push("args"@) } else { k3 };
    if s.env is Some { k4.push("env"@) } else { k4 }
}

/// The member `f` of a stored entry holds exactly the field of `s` it names.
pub open spec fn stored_member(s: ServerView, f: Field) -> bool {
    if f.key@ == "type"@ {
        is_text(f.value, s.server_type)
    } else if f.key@ == "url"@ {
        s.url is Some && is_text(f.value, s.url->0)
    } else if f.key@ == "command"@ {
        s.command is Some && is_text(f.value, s.command->0)
    } else if f.key@ == "args"@ {
        s.args is Some && is_text_array(f.value, s.args->0)
    } else if f.key@ == "env"@ {
        s.env is Some && is_text_object(f.value, s.env->0)
    } else {
        false
    }
}

/// `v` is the stored form of the entry `s`: an object whose members are
/// exactly `stored_keys(s)`, in order, each holding the field as given.
pub open spec fn stored_form(s: ServerView, v: Json) -> bool {
    v matches Json::Object(f) && f@.map_values(|m: Field| m.key@) == stored_keys(s) && forall|i: int|
        0 <= i < f@.len() ==> stored_member(s, #[trigger] f@[i])
}

/// Appends a member that belongs to the stored form of `s`.
fn push_member(fields: &mut Vec<Field>, f: Field, Ghost(s): Ghost<ServerView>)
    requires
        forall|i: int| 0 <= i < old(fields)@.len() ==> stored_member(s, #[trigger] old(fields)@[i]),
        stored_member(s, f),
    ensures
        final(fields)@ == old(fields)@.push(f),
        final(fields)@.map_values(|m: Field| m.key@) == old(fields)@.map_values(|m: Field| m.key@).push(f.key@),
        forall|i: int| 0 <= i < final(fields)@.len() ==> stored_member(s, #[trigger] final(fields)@[i]),
        forall|k: Seq<char>|
            #[trigger] lookup(final(fields)@, k) == if f.key@ == k {
                Some(f.value)
            } else {
                lookup(old(fields)@, k)
            },
{
    let ghost before = fields@;
    let ghost g = f;
    push_field(fields, f);
    assert(fields@.map_values(|m: Field| m.key@) =~= before.map_values(|m: Field| m.key@).push(g.key@));
    assert forall|i: int| 0 <= i < fields@.len() implies stored_member(s, #[trigger] fields@[i]) by {
        if i < before.len() {
            assert(fields@[i] == before[i]);
        }
    }
}

/// The stored form of a server entry: its kind under "type", and each field
/// that is present. The name is the key the value is stored under.
pub fn server_to_json(server: &ClaudeCodeServer) -> (r: Json)
    ensures
        stored_form(server@, r),
        entry_model(server.name@, r) == server@,
{
    proof {
        lemma_entry_keys_distinct();
    }
    let ghost s = server@;
    let mut fields: Vec<Field> = Vec::new();
    let ghost mut keys: Seq<Seq<char>> = Seq::empty();
    assert(fields@.map_values(|m: Field| m.key@) =~= keys);
    push_member(&mut fields, Field { key: String::from_str("type"), value: Json::Str(server.server_type.clone()) }, Ghost(s));
    proof {
        keys = keys.push("type"@);
        assert(keys =~= seq!["type"@]);
    }
    if let Some(url) = &server.url {
        push_member(&mut fields, Field { key: String::from_str("url"), value: Json::Str(url.clone()) }, Ghost(s));
        proof {
            keys = keys.push("url"@);
        }
    }
    if let Some(command) = &server.command {
        push_member(&mut fields, Field { key: String::from_str("command"), value: Json::Str(command.clone()) }, Ghost(s));
        proof {
            keys = keys.push("command"@);
        }
    }
    if let Some(args) = &server.args {
        let mut items: Vec<Json> = Vec::new();
        let mut i: usize = 0;
        while i < args.len()
            invariant
                i <= args@.len(),
                items@.len() == i,
                forall|j: int| 0 <= j < i ==> (#[trigger] items@[j] matches Json::Str(t) && t@ == args@[j]@),
            decreases args@.len() - i,
        {
            items.push(Json::Str(args[i].clone()));
            i = i + 1;
        }
        proof {
            lemma_texts_of_strings(items@, args@);
            assert(is_text_array(Json::Array(items), strings_view(args@)));
        }
        push_member(&mut fields, Field { key: String::from_str("args"), value: Json::Array(items) }, Ghost(s));
        proof {
            keys = keys.push("args"@);
        }
    }
    if let Some(env) = &server.env {
        let mut members: Vec<Field> = Vec::new();
        let mut i: usize = 0;
        while i < env.len()
            invariant
                i <= env@.len(),
                members@.len() == i,
                forall|j: int|
                    0 <= j < i ==> (#[trigger] members@[j]).key@ == env@[j].0@ && (members@[j].value matches Json::Str(t)
                        && t@ == env@[j].1@),
            decreases env@.len() - i,
        {
            members.push(Field { key: env[i].0.clone(), value: Json::Str(env[i].1.clone()) });
            i = i + 1;
        }
        proof {
            lemma_text_pairs_of_strings(members@, env@);
            assert(is_text_object(Json::Object(members), pairs_view(env@)));
        }
        push_member(&mut fields, Field { key: String::from_str("env"), value: Json::Object(members) }, Ghost(s));
        proof {
            keys = keys.push("env"@);
        }
    }
    assert(keys == stored_keys(s));
    let r = Json::Object(fields);
    assert(entry_model(server.name@, r).args == server@.args);
    r
}

/// The member names of a stored entry differ from one another.
proof fn lemma_entry_keys_distinct()
    ensures
        "type"@ != "url"@,
        "type"@ != "command"@,
        "type"@ != "args"@,
        "type"@ != "env"@,
        "url"@ != "command"@,
        "url"@ != "args"@,
        "url"@ != "env"@,
        "command"@ != "args"@,
        "command"@ != "env"@,
        "args"@ != "env"@,
{
    reveal_strlit("type");
    reveal_strlit("url");
    reveal_strlit("command");
    reveal_strlit("args");
    reveal_strlit("env");
    assert("type"@[0] == 't');
    assert("url"@[0] == 'u');
    assert("command"@[0] == 'c');
    assert("args"@[0] == 'a');
    assert("env"@[0] == 'e');
}

proof fn lemma_texts_of_strings(items: Seq<Json>, args: Seq<String>)
    requires
        items.len() == args.len(),
        forall|j: int| 0 <= j < items.len() ==> (#[trigger] items[j] matches Json::Str(s) && s@ == args[j]@),
    ensures
        texts_of(items) == strings_view(args),
    decreases items.len(),
{
    if items.len() > 0 {
        lemma_texts_of_strings(items.drop_last(), args.drop_last());
        assert(strings_view(args) == strings_view(args.drop_last()).push(args.last()@));
    } else {
        assert(strings_view(args) == Seq::<Seq<char>>::empty());
    }
}

proof fn lemma_text_pairs_of_strings(members: Seq<Field>, env: Seq<(String, String)>)
    requires
        members.len() == env.len(),
        forall|j: int|
            0 <= j < members.len() ==> members[j].key@ == env[j].0@ && (members[j].value matches Json::Str(s)
                && s@ == env[j].1@),
    ensures
        text_pairs_of(members) == pairs_view(env),
    decreases members.len(),
{
    if members.len() > 0 {
        lemma_text_pairs_of_strings(members.drop_last(), env.drop_last());
        assert(pairs_view(env) == pairs_view(env.drop_last()).push((env.last().0@, env.last().1@)));
    } else {
        assert(pairs_view(env) == Seq::<(Seq<char>, Seq<char>)>::empty());
    }
}

} // verus!
