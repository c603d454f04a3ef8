//! Editing the configuration of the workspace and of the programs that start the
//! server.
use crate::json;
use crate::json::{
    get, list_value, member, object_value, put, put_entry, text_value, Json, Member, Value,
};
use crate::launch;
use crate::launch::{mcp_launch_spec, mcp_shell_launch_spec, Platform};
use crate::paths;
use crate::paths::join_path;
use crate::watch::WATCH_DEBOUNCE_MS;
use vstd::prelude::*;
use vstd::string::*;

verus! {

// ── Other programs ───────────────────────────────────────────────────────────

/// The programs whose configuration is written.
#[derive(Clone, Copy, Debug, PartialEq, Eq, Structural)]
pub enum ConfigWriter {
    Antigravity,
    Cursor,
    Copilot,
    Cline,
    Zed,
}

/// What has to be there before a configuration is written.
#[derive(Clone, Copy, Debug, PartialEq, Eq, Structural)]
pub enum EditNeeds {
    Nothing,
    File,
    Parent,
}

/// An entry for the server in a configuration file. One that is not optional and lacks
/// what it needs shows that the program is not installed.
#[derive(Debug)]
pub struct ConfigEdit {
    pub path: String,
    pub needs: EditNeeds,
    pub optional: bool,
    pub section: &'static str,
    pub entry: Json,
}

/// Whether an edit is this one.
pub open spec fn is_edit(
    edit: ConfigEdit,
    path: Seq<char>,
    needs: EditNeeds,
    optional: bool,
    section: Seq<char>,
    entry: Value,
) -> bool {
    &&& edit.path@ == path
    &&& edit.needs == needs
    &&& edit.optional == optional
    &&& edit.section@ == section
    &&& edit.entry@ == entry
}

/// What all writers go by.
pub struct LaunchPlace {
    pub home: String,
    pub platform: Platform,
    /// Whether there is a `/bin/zsh`.
    pub has_zsh: bool,
    /// The search path under which the server is found.
    pub search_path: String,
    /// Where Cline keeps the servers it knows, below the home directory.
    pub cline_config: String,
}

impl LaunchPlace {
    /// The entry that runs the server through a login shell.
    pub open spec fn shell_entry(self) -> Seq<(Seq<char>, Value)> {
        launch::command_value(
            launch::shell_command(self.platform, self.has_zsh),
            launch::shell_args(self.platform),
        )
    }

    /// A path below the home directory.
    pub open spec fn at_home(self, tail: Seq<char>) -> Seq<char> {
        paths::joined_path(self.home@, tail)
    }
}

/// The environment of an entry that names the search path.
pub open spec fn path_env(search_path: Seq<char>) -> Value {
    Value::Object(seq![("PATH"@, Value::Text(search_path))])
}

fn path_env_value(search_path: &str) -> (r: Json)
    ensures
        r@ == path_env(search_path@),
{
    let mut env: Vec<Member> = Vec::new();
    let one = member("PATH", text_value(search_path));
    env.push(one);
    assert(json::members(env@) =~= seq![("PATH"@, Value::Text(search_path@))]);
    object_value(env)
}

/// Where the editor that Copilot runs in keeps the servers it knows.
pub open spec fn editor_config(platform: Platform) -> Seq<char> {
    match platform {
        Platform::MacOs => "Library/Application Support/Code/User/mcp.json"@,
        Platform::Linux => ".config/Code/User/mcp.json"@,
        _ => ".mcp.json"@,
    }
}

/// The entry that Zed takes.
pub open spec fn zed_entry(search_path: Seq<char>) -> Value {
    Value::Object(
        seq![
            (
                "command"@,
                Value::Object(
                    seq![
                        ("path"@, Value::Text("marrow"@)),
                        ("args"@, json::text_list(launch::one_arg())),
                        ("env"@, path_env(search_path)),
                    ],
                ),
            ),
            ("settings"@, Value::Object(Seq::empty())),
        ],
    )
}

fn zed_entry_value(search_path: &str) -> (r: Json)
    ensures
        r@ == zed_entry(search_path@),
{
    let mut args: Vec<Json> = Vec::new();
    args.push(text_value("mcp"));
    assert(json::values(args@) =~= json::text_list(launch::one_arg())->List_0);
    let mut command: Vec<Member> = Vec::new();
    let m0 = member("path", text_value("marrow"));
    let m1 = member("args", list_value(args));
    let m2 = member("env", path_env_value(search_path));
    command.push(m0);
    command.push(m1);
    command.push(m2);
    assert(json::members(command@) =~= seq![
        ("path"@, Value::Text("marrow"@)),
        ("args"@, json::text_list(launch::one_arg())),
        ("env"@, path_env(search_path@)),
    ]);
    let nothing: Vec<Member> = Vec::new();
    assert(json::members(nothing@) =~= Seq::empty());
    let mut out: Vec<Member> = Vec::new();
    let m3 = member("command", object_value(command));
    let m4 = member("settings", object_value(nothing));
    out.push(m3);
    out.push(m4);
    assert(json::members(out@) =~= zed_entry(search_path@)->Object_0);
    object_value(out)
}

/// The entry that Cline takes.
pub open spec fn cline_entry(shell: Seq<(Seq<char>, Value)>) -> Value {
    Value::Object(
        json::with_member(
            json::with_member(shell, "disabled"@, Value::Bool(false)),
            "autoApprove"@,
            Value::List(Seq::empty()),
        ),
    )
}

/// Whether these are the edits that register the server with a program.
pub open spec fn are_edits(edits: Seq<ConfigEdit>, writer: ConfigWriter, at: LaunchPlace) -> bool {
    let shell = at.shell_entry();
    match writer {
        ConfigWriter::Antigravity => edits.len() == 1 && is_edit(
            edits[0],
            at.at_home(".gemini/antigravity/mcp_config.json"@),
            EditNeeds::File,
            false,
            "mcpServers"@,
            Value::Object(
                json::with_member(
                    launch::command_value("marrow"@, launch::one_arg()),
                    "env"@,
                    path_env(at.search_path@),
                ),
            ),
        ),
        ConfigWriter::Cursor => edits.len() == 1 && is_edit(
            edits[0],
            at.at_home(".cursor/mcp.json"@),
            EditNeeds::Nothing,
            false,
            "mcpServers"@,
            Value::Object(shell),
        ),
        ConfigWriter::Copilot => edits.len() == 2 && is_edit(
            edits[0],
            at.at_home(editor_config(at.platform)),
            EditNeeds::Parent,
            true,
            "servers"@,
            Value::Object(shell),
        ) && is_edit(
            edits[1],
            at.at_home(".copilot/mcp-config.json"@),
            EditNeeds::Nothing,
            false,
            "mcpServers"@,
            Value::Object(json::with_member(shell, "type"@, Value::Text("stdio"@))),
        ),
        ConfigWriter::Cline => edits.len() == 1 && is_edit(
            edits[0],
            at.at_home(at.cline_config@),
            EditNeeds::Parent,
            false,
            "mcpServers"@,
            cline_entry(shell),
        ),
        ConfigWriter::Zed => edits.len() == 1 && is_edit(
            edits[0],
            at.at_home(".config/zed/settings.json"@),
            EditNeeds::File,
            false,
            "context_servers"@,
            zed_entry(at.search_path@),
        ),
    }
}

/// Whatever is registered starts the server: a shell of the platform runs it, or it is
/// named itself with the search path that finds it.
pub proof fn law_registrations_start_the_server(
    edits: Seq<ConfigEdit>,
    writer: ConfigWriter,
    at: LaunchPlace,
    i: int,
)
    requires
        are_edits(edits, writer, at),
        0 <= i < edits.len(),
    ensures
        edits[i].entry@ is Object,
        ({
            let entry = edits[i].entry@->Object_0;
            match writer {
                ConfigWriter::Antigravity => json::found(entry, "command"@) == Some(
                    Value::Text("marrow"@),
                ) && json::found(entry, "args"@) == Some(json::text_list(seq!["mcp"@]))
                    && json::found(entry, "env"@) == Some(
                    Value::Object(seq![("PATH"@, Value::Text(at.search_path@))]),
                ),
                ConfigWriter::Zed => json::found(entry, "command"@) matches Some(
                    Value::Object(command),
                ) && json::found(command, "path"@) == Some(Value::Text("marrow"@)) && json::found(
                    command,
                    "args"@,
                ) == Some(json::text_list(seq!["mcp"@])) && json::found(command, "env"@) == Some(
                    Value::Object(seq![("PATH"@, Value::Text(at.search_path@))]),
                ),
                _ => json::found(entry, "command"@) == Some(
                    Value::Text(launch::shell_command(at.platform, at.has_zsh)),
                ) && json::found(entry, "args"@) == Some(
                    json::text_list(launch::shell_args(at.platform)),
                ),
            }
        }),
{
    reveal_with_fuel(json::found, 4);
    reveal_strlit("command");
    reveal_strlit("args");
    reveal_strlit("env");
    reveal_strlit("path");
    reveal_strlit("type");
    reveal_strlit("disabled");
    reveal_strlit("autoApprove");
    assert("args"@[0] != "path"@[0]);
    assert("args"@[0] != "type"@[0]);
    assert("command"@.len() == 7 && "args"@.len() == 4 && "env"@.len() == 3 && "type"@.len() == 4);
    assert("disabled"@.len() == 8 && "autoApprove"@.len() == 11 && "path"@.len() == 4);
    let shell = at.shell_entry();
    assert(shell.skip(1)[0] == ("args"@, json::text_list(launch::shell_args(at.platform))));
    let named = launch::command_value("marrow"@, launch::one_arg());
    assert(named.skip(1)[0] == ("args"@, json::text_list(launch::one_arg())));
    let env = path_env(at.search_path@);
    json::law_members_are_found(named, "env"@, env, "command"@);
    json::law_members_are_found(named, "env"@, env, "args"@);
    let stdio = Value::Text("stdio"@);
    json::law_members_are_found(shell, "type"@, stdio, "command"@);
    json::law_members_are_found(shell, "type"@, stdio, "args"@);
    let enabled = json::with_member(shell, "disabled"@, Value::Bool(false));
    json::law_members_are_found(shell, "disabled"@, Value::Bool(false), "command"@);
    json::law_members_are_found(shell, "disabled"@, Value::Bool(false), "args"@);
    let none = Value::List(Seq::empty());
    json::law_members_are_found(enabled, "autoApprove"@, none, "command"@);
    json::law_members_are_found(enabled, "autoApprove"@, none, "args"@);
    if writer == ConfigWriter::Zed {
        let entry = edits[i].entry@->Object_0;
        let command = entry[0].1->Object_0;
        assert(command.skip(1)[0] == ("args"@, json::text_list(launch::one_arg())));
        assert(command.skip(1).skip(1)[0] == ("env"@, env));
        assert(json::found(command.skip(1), "args"@) == Some(command[1].1));
        assert(json::found(command.skip(1).skip(1), "env"@) == Some(env));
        assert(json::found(command.skip(1), "env"@) == Some(env));
    }
    assert(json::found(shell.skip(1), "args"@) == Some(shell[1].1));
    assert(json::found(named.skip(1), "args"@) == Some(named[1].1));
}

fn edit(
    at: &LaunchPlace,
    tail: &str,
    needs: EditNeeds,
    optional: bool,
    section: &'static str,
    entry: Json,
) -> (r: ConfigEdit)
    ensures
        is_edit(r, at.at_home(tail@), needs, optional, section@, entry@),
{
    ConfigEdit { path: join_path(&at.home, tail), needs, optional, section, entry }
}

fn cline_entry_value(at: &LaunchPlace) -> (r: Json)
    ensures
        r@ == cline_entry(at.shell_entry()),
{
    let mut entry = mcp_shell_launch_spec(at.platform, at.has_zsh);
    put(&mut entry, "disabled", Json::Bool(false));
    let nothing: Vec<Json> = Vec::new();
    assert(json::values(nothing@) =~= Seq::empty());
    put(&mut entry, "autoApprove", list_value(nothing));
    object_value(entry)
}

fn copilot_edits(at: &LaunchPlace) -> (r: Vec<ConfigEdit>)
    ensures
        are_edits(r@, ConfigWriter::Copilot, *at),
{
    let editor: &str = match at.platform {
        Platform::MacOs => "Library/Application Support/Code/User/mcp.json",
        Platform::Linux => ".config/Code/User/mcp.json",
        _ => ".mcp.json",
    };
    let first = object_value(mcp_shell_launch_spec(at.platform, at.has_zsh));
    let mut entry = mcp_shell_launch_spec(at.platform, at.has_zsh);
    put(&mut entry, "type", text_value("stdio"));
    let second = object_value(entry);
    let mut out: Vec<ConfigEdit> = Vec::new();
    out.push(edit(at, editor, EditNeeds::Parent, true, "servers", first));
    out.push(
        edit(at, ".copilot/mcp-config.json", EditNeeds::Nothing, false, "mcpServers", second),
    );
    out
}

/// The edits that register the server with a program.
pub fn config_edits(writer: ConfigWriter, at: &LaunchPlace) -> (r: Vec<ConfigEdit>)
    ensures
        are_edits(r@, writer, *at),
{
    let one = match writer {
        ConfigWriter::Copilot => {
            return copilot_edits(at);
        },
        ConfigWriter::Antigravity => {
            let mut entry = mcp_launch_spec();
            put(&mut entry, "env", path_env_value(&at.search_path));
            edit(
                at,
                ".gemini/antigravity/mcp_config.json",
                EditNeeds::File,
                false,
                "mcpServers",
                object_value(entry),
            )
        },
        ConfigWriter::Cursor => edit(
            at,
            ".cursor/mcp.json",
            EditNeeds::Nothing,
            false,
            "mcpServers",
            object_value(mcp_shell_launch_spec(at.platform, at.has_zsh)),
        ),
        ConfigWriter::Cline => edit(
            at,
            &at.cline_config,
            EditNeeds::Parent,
            false,
            "mcpServers",
            cline_entry_value(at),
        ),
        ConfigWriter::Zed => edit(
            at,
            ".config/zed/settings.json",
            EditNeeds::File,
            false,
            "context_servers",
            zed_entry_value(&at.search_path),
        ),
    };
    let mut out: Vec<ConfigEdit> = Vec::new();
    out.push(one);
    out
}

/// A configuration with the server's entry in it; none where it is not one that entries
/// can be put into.
pub fn apply_edit(config: Json, edit: ConfigEdit) -> (r: Option<Json>)
    ensures
        match r {
            Some(edited) => json::with_entry(config@, edit.section@, "marrow"@, edit.entry@)
                == Some(edited@),
            None => json::with_entry(config@, edit.section@, "marrow"@, edit.entry@) is None,
        },
{
    put_entry(config, edit.section, "marrow", edit.entry)
}

/// Registering the server puts its entry where it is looked for, and touches no other
/// entry of the section and no other section.
pub proof fn law_registration_keeps_the_rest(
    config: Value,
    section: Seq<char>,
    entry: Value,
    other: Seq<char>,
)
    requires
        json::with_entry(config, section, "marrow"@, entry) is Some,
    ensures
        ({
            let edited = json::with_entry(config, section, "marrow"@, entry)->Some_0->Object_0;
            let top = json::open_members(Some(config))->Some_0;
            let inner = json::open_members(json::found(top, section))->Some_0;
            let edited_inner = json::found(edited, section)->Some_0->Object_0;
            &&& json::found(edited, section) is Some
            &&& json::found(edited_inner, "marrow"@) == Some(entry)
            &&& other != "marrow"@ ==> json::found(edited_inner, other) == json::found(inner, other)
            &&& other != section ==> json::found(edited, other) == json::found(top, other)
        }),
{
    let top = json::open_members(Some(config))->Some_0;
    let inner = json::open_members(json::found(top, section))->Some_0;
    let value = Value::Object(json::with_member(inner, "marrow"@, entry));
    json::law_members_are_found(inner, "marrow"@, entry, other);
    json::law_members_are_found(top, section, value, other);
}

// ── The workspace's editor ───────────────────────────────────────────────────

/// The members of a section, none where it is not an object.
pub open spec fn section_members(v: Option<Value>) -> Seq<(Seq<char>, Value)> {
    match v {
        Some(Value::Object(object)) => object,
        _ => Seq::empty(),
    }
}

/// The configuration of the workspace's editor with the server in it. A section that is
/// not an object is replaced.
pub open spec fn with_server(config: Value, entry: Value) -> Option<Value> {
    match json::open_members(Some(config)) {
        Some(top) => Some(
            Value::Object(
                json::with_member(
                    top,
                    "servers"@,
                    Value::Object(
                        json::with_member(
                            section_members(json::found(top, "servers"@)),
                            "marrow"@,
                            entry,
                        ),
                    ),
                ),
            ),
        ),
        None => None,
    }
}

/// A workspace's file keeps all that it held but the server's entry, which is the one that
/// is given.
pub proof fn law_workspace_files_keep_the_rest(
    object: Seq<(Seq<char>, Value)>,
    inner: Seq<(Seq<char>, Value)>,
    entry: Value,
    other: Seq<char>,
)
    ensures
        with_server(Value::Object(object), entry) is Some,
        ({
            let edited = with_server(Value::Object(object), entry)->Some_0->Object_0;
            let servers = json::found(edited, "servers"@)->Some_0->Object_0;
            &&& json::found(edited, "servers"@) is Some
            &&& json::found(servers, "marrow"@) == Some(entry)
            &&& other != "servers"@ ==> json::found(edited, other) == json::found(object, other)
            &&& other != "marrow"@ && json::found(object, "servers"@) == Some(Value::Object(inner))
                ==> json::found(servers, other) == json::found(inner, other)
        }),
        with_server(Value::Null, entry) == with_server(Value::Object(Seq::empty()), entry),
{
    let held = section_members(json::found(object, "servers"@));
    let servers = json::with_member(held, "marrow"@, entry);
    json::law_members_are_found(held, "marrow"@, entry, other);
    json::law_members_are_found(object, "servers"@, Value::Object(servers), other);
}

fn is_object(v: Option<&Json>) -> (r: bool)
    ensures
        r == (json::opt_value(v) matches Some(Value::Object(_))),
{
    match v {
        Some(Json::Object(_)) => true,
        _ => false,
    }
}

/// The configuration of the workspace's editor with the server in it; none where the
/// file holds something that has no members.
pub fn merge_vscode_config(config: Json, entry: Json) -> (r: Option<Json>)
    ensures
        match r {
            Some(edited) => with_server(config@, entry@) == Some(edited@),
            None => with_server(config@, entry@) is None,
        },
{
    proof {
        json::lemma_parts(config);
    }
    let mut top: Vec<Member> = match config {
        Json::Null => {
            let none: Vec<Member> = Vec::new();
            assert(json::members(none@) =~= Seq::empty());
            none
        },
        Json::Object(top) => top,
        _ => {
            return None;
        },
    };
    let ghost before = json::members(top@);
    let ready = is_object(get(&top, "servers"));
    if !ready {
        let nothing: Vec<Member> = Vec::new();
        assert(json::members(nothing@) =~= Seq::empty());
        put(&mut top, "servers", object_value(nothing));
    }
    let ghost middle = json::members(top@);
    let ghost inner = section_members(json::found(before, "servers"@));
    proof {
        json::law_members_are_found(
            before,
            "servers"@,
            Value::Object(Seq::empty()),
            "servers"@,
        );
        assert(json::found(middle, "servers"@) == Some(Value::Object(inner)));
        let value = Value::Object(json::with_member(inner, "marrow"@, entry@));
        lemma_put_twice(before, "servers"@, Value::Object(Seq::empty()), value);
    }
    put_entry(object_value(top), "servers", "marrow", entry)
}

proof fn lemma_put_twice(
    object: Seq<(Seq<char>, Value)>,
    key: Seq<char>,
    first: Value,
    second: Value,
)
    ensures
        json::with_member(json::with_member(object, key, first), key, second)
            == json::with_member(object, key, second),
    decreases object.len(),
{
    let once = json::with_member(object, key, first);
    if object.len() == 0 {
        assert(once.skip(1) =~= Seq::empty());
        assert(json::with_member(once, key, second) =~= seq![(key, second)]);
    } else if object[0].0 == key {
        assert(once[0].0 == key);
        assert(once.skip(1) =~= object.skip(1));
    } else {
        assert(once[0] == object[0]);
        assert(once.skip(1) =~= json::with_member(object.skip(1), key, first));
        lemma_put_twice(object.skip(1), key, first, second);
    }
}

// ── The workspace ────────────────────────────────────────────────────────────

/// Members with a default where a key is missing.
pub open spec fn with_default(
    object: Seq<(Seq<char>, Value)>,
    key: Seq<char>,
    value: Value,
) -> Seq<(Seq<char>, Value)> {
    match json::found(object, key) {
        Some(_) => object,
        None => json::with_member(object, key, value),
    }
}

/// The directories that are not indexed unless something else is set.
pub open spec fn default_ignores() -> Value {
    json::text_list(seq!["node_modules"@, "target"@, "dist"@, ".git"@])
}

/// The configuration of a workspace: what was set, defaults for the rest, and the one
/// way of enforcement that there is.
pub open spec fn completed(config: Value) -> Value {
    let set = match config {
        Value::Object(object) => object,
        _ => Seq::empty(),
    };
    let a = with_default(set, "ignore"@, default_ignores());
    let b = with_default(a, "show_dashboard"@, Value::Bool(true));
    let c = with_default(b, "auto_open_ui"@, Value::Bool(true));
    Value::Object(json::with_member(c, "enforcement_mode"@, Value::Text("default"@)))
}

fn put_default(object: &mut Vec<Member>, key: &str, value: Json)
    ensures
        json::members(final(object)@) == with_default(json::members(old(object)@), key@, value@),
{
    if get(object, key).is_none() {
        put(object, key, value);
    }
}

/// Completes the configuration of a workspace.
pub fn ensure_workspace_config(config: Json) -> (r: Json)
    ensures
        r@ == completed(config@),
{
    proof {
        json::lemma_parts(config);
    }
    let mut set: Vec<Member> = match config {
        Json::Object(object) => object,
        _ => Vec::new(),
    };
    assert(set@.len() == 0 ==> json::members(set@) =~= Seq::empty());
    let mut ignores: Vec<Json> = Vec::new();
    ignores.push(text_value("node_modules"));
    ignores.push(text_value("target"));
    ignores.push(text_value("dist"));
    ignores.push(text_value(".git"));
    assert(json::values(ignores@) =~= default_ignores()->List_0);
    put_default(&mut set, "ignore", list_value(ignores));
    put_default(&mut set, "show_dashboard", Json::Bool(true));
    put_default(&mut set, "auto_open_ui", Json::Bool(true));
    put(&mut set, "enforcement_mode", text_value("default"));
    object_value(set)
}

/// What was set stays as it was, but for the way of enforcement.
pub proof fn law_completion_keeps_what_was_set(
    object: Seq<(Seq<char>, Value)>,
    key: Seq<char>,
)
    requires
        key != "enforcement_mode"@,
        json::found(object, key) is Some,
    ensures
        json::found(completed(Value::Object(object))->Object_0, key) == json::found(object, key),
{
    let a = with_default(object, "ignore"@, default_ignores());
    let b = with_default(a, "show_dashboard"@, Value::Bool(true));
    let c = with_default(b, "auto_open_ui"@, Value::Bool(true));
    json::law_members_are_found(object, "ignore"@, default_ignores(), key);
    json::law_members_are_found(a, "show_dashboard"@, Value::Bool(true), key);
    json::law_members_are_found(b, "auto_open_ui"@, Value::Bool(true), key);
    json::law_members_are_found(c, "enforcement_mode"@, Value::Text("default"@), key);
}

/// What was not set is set to its default, and the way of enforcement is the default
/// whatever it was.
pub proof fn law_completion_sets_what_is_missing(object: Seq<(Seq<char>, Value)>)
    ensures
        ({
            let set = completed(Value::Object(object))->Object_0;
            &&& json::found(set, "enforcement_mode"@) == Some(Value::Text("default"@))
            &&& json::found(object, "ignore"@) is None ==> json::found(set, "ignore"@) == Some(
                json::text_list(seq!["node_modules"@, "target"@, "dist"@, ".git"@]),
            )
            &&& json::found(object, "show_dashboard"@) is None ==> json::found(
                set,
                "show_dashboard"@,
            ) == Some(Value::Bool(true))
            &&& json::found(object, "auto_open_ui"@) is None ==> json::found(set, "auto_open_ui"@)
                == Some(Value::Bool(true))
        }),
{
    reveal_strlit("ignore");
    reveal_strlit("show_dashboard");
    reveal_strlit("auto_open_ui");
    reveal_strlit("enforcement_mode");
    let ignores = default_ignores();
    let on = Value::Bool(true);
    let a = with_default(object, "ignore"@, ignores);
    let b = with_default(a, "show_dashboard"@, on);
    let c = with_default(b, "auto_open_ui"@, on);
    assert("ignore"@.len() != "show_dashboard"@.len());
    assert("ignore"@.len() != "auto_open_ui"@.len());
    assert("ignore"@.len() != "enforcement_mode"@.len());
    assert("show_dashboard"@.len() != "auto_open_ui"@.len());
    assert("show_dashboard"@.len() != "enforcement_mode"@.len());
    assert("auto_open_ui"@.len() != "enforcement_mode"@.len());
    json::law_members_are_found(object, "ignore"@, ignores, "show_dashboard"@);
    json::law_members_are_found(object, "ignore"@, ignores, "auto_open_ui"@);
    json::law_members_are_found(a, "show_dashboard"@, on, "ignore"@);
    json::law_members_are_found(a, "show_dashboard"@, on, "auto_open_ui"@);
    json::law_members_are_found(b, "auto_open_ui"@, on, "ignore"@);
    json::law_members_are_found(b, "auto_open_ui"@, on, "show_dashboard"@);
    json::law_members_are_found(c, "enforcement_mode"@, Value::Text("default"@), "ignore"@);
    json::law_members_are_found(c, "enforcement_mode"@, Value::Text("default"@), "show_dashboard"@);
    json::law_members_are_found(c, "enforcement_mode"@, Value::Text("default"@), "auto_open_ui"@);
}

/// A member of a configuration.
pub open spec fn setting(config: Value, key: Seq<char>) -> Option<Value> {
    match config {
        Value::Object(object) => json::found(object, key),
        _ => None,
    }
}

/// A switch of a configuration, or what it is when it is not set.
pub open spec fn switch_or(config: Value, key: Seq<char>, default: bool) -> bool {
    match setting(config, key) {
        Some(Value::Bool(b)) => b,
        _ => default,
    }
}

fn read_switch(config: &Json, key: &str, default: bool) -> (r: bool)
    ensures
        r == switch_or(config@, key@, default),
{
    proof {
        json::lemma_parts(*config);
    }
    match config {
        Json::Object(object) => match get(object, key) {
            Some(Json::Bool(b)) => *b,
            _ => default,
        },
        _ => default,
    }
}

/// Whether the dashboard opens by itself, which it does unless it is switched off.
pub open spec fn opens_by_itself(config: Value) -> bool {
    switch_or(config, "auto_open_ui"@, true)
}

/// Whether the dashboard opens by itself, which it does unless it is switched off.
pub fn auto_open(config: &Json) -> (r: bool)
    ensures
        r == opens_by_itself(config@),
{
    read_switch(config, "auto_open_ui", true)
}

/// The configuration with the switch turned; none where it has no members.
pub fn toggle_auto_open(config: Json) -> (r: Option<Json>)
    ensures
        match r {
            Some(edited) => json::open_members(Some(config@)) matches Some(top) && edited@
                == Value::Object(
                json::with_member(top, "auto_open_ui"@, Value::Bool(!opens_by_itself(config@))),
            ),
            None => json::open_members(Some(config@)) is None,
        },
{
    proof {
        json::lemma_parts(config);
    }
    let current = auto_open(&config);
    let mut top: Vec<Member> = match config {
        Json::Null => {
            let none: Vec<Member> = Vec::new();
            assert(json::members(none@) =~= Seq::empty());
            none
        },
        Json::Object(top) => top,
        _ => {
            return None;
        },
    };
    put(&mut top, "auto_open_ui", Json::Bool(!current));
    Some(object_value(top))
}

/// What a workspace's configuration says of a running server.
#[derive(Clone, Copy, Debug, PartialEq, Eq, Structural)]
pub struct ServerFlags {
    pub show_dashboard: bool,
    pub auto_open_ui: bool,
    pub enable_watcher: bool,
    pub watch_debounce_ms: u64,
}

/// Reads what a workspace's configuration says of a running server.
pub fn server_flags(config: &Json) -> (r: ServerFlags)
    ensures
        r.show_dashboard == switch_or(config@, "show_dashboard"@, true),
        r.auto_open_ui == switch_or(config@, "auto_open_ui"@, true),
        r.enable_watcher == switch_or(config@, "enable_watcher"@, false),
        r.watch_debounce_ms == match setting(config@, "watch_debounce_ms"@) {
            Some(Value::Count(n)) => n,
            _ => WATCH_DEBOUNCE_MS,
        },
{
    proof {
        json::lemma_parts(*config);
    }
    let watch_debounce_ms: u64 = match config {
        Json::Object(object) => match get(object, "watch_debounce_ms") {
            Some(Json::Count(n)) => *n,
            _ => WATCH_DEBOUNCE_MS,
        },
        _ => WATCH_DEBOUNCE_MS,
    };
    ServerFlags {
        show_dashboard: read_switch(config, "show_dashboard", true),
        auto_open_ui: read_switch(config, "auto_open_ui", true),
        enable_watcher: read_switch(config, "enable_watcher", false),
        watch_debounce_ms,
    }
}

} // verus!
