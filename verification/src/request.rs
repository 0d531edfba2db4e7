//! The `{command, args, flags}` envelope that each command sends to the
//! daemon.

use vstd::prelude::*;

use crate::cli::{
    ApikeyAction, Cli, Command, EntityAction, MeterAction, NextMode, ProjectAction, ReviewAction,
    UserAction,
};
use crate::flags::Flags;
use crate::text::{decimal, decimal_string, split_once, split_once_char};

verus! {

/// A map from flag names to flag values.
pub type FlagMap = Map<Seq<char>, Seq<char>>;

/// The characters of each string.
pub open spec fn views(v: Seq<String>) -> Seq<Seq<char>> {
    v.map_values(|s: String| s@)
}

/// `m` with `key` set to the value of `v`, if there is one.
pub open spec fn set_opt(m: FlagMap, key: Seq<char>, v: Option<String>) -> FlagMap {
    match v {
        Some(s) => m.insert(key, s@),
        None => m,
    }
}

/// `a` followed by the value of `v`, if there is one.
pub open spec fn push_opt(a: Seq<Seq<char>>, v: Option<String>) -> Seq<Seq<char>> {
    match v {
        Some(s) => a.push(s@),
        None => a,
    }
}

/// The flags that every request carries: `team` from `--team`, and `project`
/// from `--project`, or else from the stored default project.
pub open spec fn global_flags(
    team: Option<String>,
    project: Option<String>,
    default_project: Option<String>,
) -> FlagMap {
    let m = set_opt(Map::empty(), "team"@, team);
    match project {
        Some(p) => m.insert("project"@, p@),
        None => set_opt(m, "project"@, default_project),
    }
}

/// `m` after each `key=value` field in turn, split at its first `=`, has
/// set `key` to `value`; a field without `=` is skipped.
pub open spec fn with_fields(m: FlagMap, fields: Seq<String>) -> FlagMap
    decreases fields.len(),
{
    if fields.len() == 0 {
        m
    } else {
        let before = with_fields(m, fields.drop_last());
        match split_once_char(fields.last()@, '=') {
            Some((k, v)) => before.insert(k, v),
            None => before,
        }
    }
}

/// The name of the entity type that a command operates on, if it is one of
/// the entity commands.
pub open spec fn entity_type_name(c: Command) -> Option<Seq<char>> {
    match c {
        Command::Icp { .. } => Some("icp"@),
        Command::PainPoint { .. } => Some("pain-point"@),
        Command::ValueProp { .. } => Some("value-prop"@),
        Command::Experiment { .. } => Some("experiment"@),
        Command::Channel { .. } => Some("channel"@),
        Command::Competitor { .. } => Some("competitor"@),
        Command::Contact { .. } => Some("contact"@),
        _ => None,
    }
}

/// The word of an entity operation.
pub open spec fn entity_action_word(a: EntityAction) -> Seq<char> {
    match a {
        EntityAction::List => "list"@,
        EntityAction::Show { .. } => "show"@,
        EntityAction::Add { .. } => "add"@,
        EntityAction::Edit { .. } => "edit"@,
    }
}

/// The envelope of an operation on the entity type `entity`, whose flags
/// start as `m`: the command is `"<entity> <operation>"`.
pub open spec fn entity_envelope(entity: Seq<char>, action: EntityAction, m: FlagMap) -> (
    Seq<char>,
    Seq<Seq<char>>,
    FlagMap,
) {
    let cmd = entity + " "@ + entity_action_word(action);
    match action {
        EntityAction::List => (cmd, seq![], m),
        EntityAction::Show { id } => (cmd, seq![id@], m),
        EntityAction::Add { name, description, fields } => (
            cmd,
            seq![],
            with_fields(set_opt(set_opt(m, "name"@, name), "description"@, description), fields@),
        ),
        EntityAction::Edit { id, name, description, fields } => (
            cmd,
            seq![id@],
            with_fields(set_opt(set_opt(m, "name"@, name), "description"@, description), fields@),
        ),
    }
}

/// Whether the command is sent as an envelope; login, logout and project
/// switching are handled locally instead.
pub open spec fn sends_envelope(c: Command) -> bool {
    match c {
        Command::Login { .. } | Command::Logout => false,
        Command::Project { action: ProjectAction::Switch { .. } } => false,
        _ => true,
    }
}

/// The envelope `(command, args, flags)` for a command line, where
/// `default_project` is the stored default project.
pub open spec fn request_envelope(cli: Cli, default_project: Option<String>) -> (
    Seq<char>,
    Seq<Seq<char>>,
    FlagMap,
) {
    let m = global_flags(cli.team, cli.project, default_project);
    match cli.command {
        Command::Init { name, description, brief } => (
            "init"@,
            seq![],
            set_opt(m.insert("name"@, name@).insert("description"@, description@), "brief"@, brief),
        ),
        Command::Snapshot { entity_type, id } => (
            "snapshot"@,
            push_opt(push_opt(seq![], entity_type), id),
            m,
        ),
        Command::Review { action, id, resolution } => match action {
            Some(ReviewAction::Accept) => ("review accept"@, push_opt(seq![], id), m),
            Some(ReviewAction::Reject) => ("review reject"@, push_opt(seq![], id), m),
            Some(ReviewAction::Resolve) => (
                "review resolve"@,
                push_opt(seq![], id),
                set_opt(m, "resolution"@, resolution),
            ),
            Some(ReviewAction::Dismiss) => ("review dismiss"@, push_opt(seq![], id), m),
            None => ("review"@, seq![], m),
        },
        Command::Next { mode, id } => (
            match mode {
                Some(NextMode::Prompt) => "next prompt"@,
                Some(NextMode::Run) => "next run"@,
                None => "next"@,
            },
            push_opt(seq![], id),
            m,
        ),
        Command::History { event_type, entity, since, limit } => (
            "history"@,
            seq![],
            set_opt(
                set_opt(set_opt(m, "type"@, event_type), "entity"@, entity),
                "since"@,
                since,
            ).insert("limit"@, decimal(limit as nat)),
        ),
        Command::Icp { action } => entity_envelope("icp"@, action, m),
        Command::PainPoint { action } => entity_envelope("pain-point"@, action, m),
        Command::ValueProp { action } => entity_envelope("value-prop"@, action, m),
        Command::Experiment { action } => entity_envelope("experiment"@, action, m),
        Command::Channel { action } => entity_envelope("channel"@, action, m),
        Command::Competitor { action } => entity_envelope("competitor"@, action, m),
        Command::Contact { action } => entity_envelope("contact"@, action, m),
        Command::Project { action } => match action {
            ProjectAction::List => ("project list"@, seq![], m),
            ProjectAction::Create { name, description, brief } => (
                "init"@,
                seq![],
                set_opt(
                    m.insert("name"@, name@).insert("description"@, description@),
                    "brief"@,
                    brief,
                ),
            ),
            ProjectAction::Update { slug, name, description } => (
                "project update"@,
                push_opt(seq![], slug),
                set_opt(set_opt(m, "name"@, name), "description"@, description),
            ),
            ProjectAction::Delete { slug } => ("project delete"@, push_opt(seq![], slug), m),
            ProjectAction::Switch { .. } => ("project switch"@, seq![], m),
        },
        Command::User { action: UserAction::Create { email, name, team, team_display } } => (
            "user"@,
            seq!["create"@],
            set_opt(
                m.insert("email"@, email@).insert("name"@, name@).insert("team"@, team@),
                "team-display"@,
                team_display,
            ),
        ),
        Command::Apikey { action: ApikeyAction::Create { user, name } } => (
            "apikey"@,
            seq!["create"@],
            set_opt(m, "user"@, user).insert("name"@, name@),
        ),
        Command::Meter { action } => match action {
            Some(MeterAction::History { limit }) => (
                "meter"@,
                seq!["history"@],
                m.insert("limit"@, decimal(limit as nat)),
            ),
            Some(MeterAction::Tiers) => ("meter"@, seq!["tiers"@], m),
            _ => ("meter"@, seq!["balance"@], m),
        },
        Command::Whoami => ("whoami"@, seq![], m),
        Command::Tick => ("_tick"@, seq![], m),
        Command::Loop { id } => ("_loop"@, seq![id@], m),
        Command::Login { .. } => ("login"@, seq![], m),
        Command::Logout => ("logout"@, seq![], m),
    }
}

fn literal(s: &str) -> (r: String)
    ensures
        r@ == s@,
{
    String::from_str(s)
}

fn set_flag(flags: &mut Flags, key: &str, value: &String)
    requires
        old(flags).wf(),
    ensures
        final(flags).wf(),
        final(flags)@ == old(flags)@.insert(key@, value@),
{
    flags.insert(literal(key), value.clone());
}

fn set_flag_opt(flags: &mut Flags, key: &str, value: &Option<String>)
    requires
        old(flags).wf(),
    ensures
        final(flags).wf(),
        final(flags)@ == set_opt(old(flags)@, key@, *value),
{
    if let Some(v) = value {
        set_flag(flags, key, v);
    }
}

fn push_arg_opt(args: &mut Vec<String>, value: &Option<String>)
    ensures
        views(final(args)@) == push_opt(views(old(args)@), *value),
{
    if let Some(v) = value {
        args.push(v.clone());
    }
    assert(views(args@) =~= push_opt(views(old(args)@), *value));
}

fn apply_fields(flags: &mut Flags, fields: &Vec<String>)
    requires
        old(flags).wf(),
    ensures
        final(flags).wf(),
        final(flags)@ == with_fields(old(flags)@, fields@),
{
    let ghost start = flags@;
    let n = fields.len();
    let mut i: usize = 0;
    assert(fields@.take(0) =~= Seq::<String>::empty());
    while i < n
        invariant
            i <= n,
            n == fields@.len(),
            flags.wf(),
            flags@ == with_fields(start, fields@.take(i as int)),
        decreases n - i,
    {
        assert(fields@.take(i + 1).drop_last() =~= fields@.take(i as int));
        match split_once(fields[i].as_str(), '=') {
            Some((k, v)) => {
                flags.insert(k, v);
            },
            None => {},
        }
        i = i + 1;
    }
    assert(fields@.take(n as int) =~= fields@);
}

/// The envelope of an operation on the entity type `entity_type`, whose
/// flags start as `flags`; `flags` ends holding the envelope's flags.
pub fn build_entity_request(entity_type: &str, action: &EntityAction, flags: &mut Flags) -> (r: (
    String,
    Vec<String>,
    Flags,
))
    requires
        old(flags).wf(),
    ensures
        final(flags).wf(),
        r.2.wf(),
        r.2@ == final(flags)@,
        (r.0@, views(r.1@), r.2@) == entity_envelope(entity_type@, *action, old(flags)@),
{
    let mut args: Vec<String> = Vec::new();
    let sub = match action {
        EntityAction::List => "list",
        EntityAction::Show { id } => {
            args.push(id.clone());
            "show"
        },
        EntityAction::Add { name, description, fields } => {
            set_flag_opt(flags, "name", name);
            set_flag_opt(flags, "description", description);
            apply_fields(flags, fields);
            "add"
        },
        EntityAction::Edit { id, name, description, fields } => {
            args.push(id.clone());
            set_flag_opt(flags, "name", name);
            set_flag_opt(flags, "description", description);
            apply_fields(flags, fields);
            "edit"
        },
    };
    assert(sub@ == entity_action_word(*action));
    let cmd = literal(entity_type).concat(" ").concat(sub);
    let out = flags.clone();
    assert(views(args@) =~= entity_envelope(entity_type@, *action, old(flags)@).1);
    (cmd, args, out)
}

/// The envelope `(command, args, flags)` that the command line `cli` sends,
/// where `default_project` is the stored default project (consulted only
/// when `--project` is absent).
pub fn build_request(cli: &Cli, default_project: Option<String>) -> (r: (
    String,
    Vec<String>,
    Flags,
))
    requires
        sends_envelope(cli.command),
    ensures
        r.2.wf(),
        (r.0@, views(r.1@), r.2@) == request_envelope(*cli, default_project),
{
    let mut flags = Flags::new();
    set_flag_opt(&mut flags, "team", &cli.team);
    if let Some(p) = &cli.project {
        set_flag(&mut flags, "project", p);
    } else {
        set_flag_opt(&mut flags, "project", &default_project);
    }
    let ghost m = flags@;
    assert(m == global_flags(cli.team, cli.project, default_project));
    let mut args: Vec<String> = Vec::new();
    match &cli.command {
        Command::Init { name, description, brief } => {
            set_flag(&mut flags, "name", name);
            set_flag(&mut flags, "description", description);
            set_flag_opt(&mut flags, "brief", brief);
            (literal("init"), args, flags)
        },
        Command::Snapshot { entity_type, id } => {
            push_arg_opt(&mut args, entity_type);
            push_arg_opt(&mut args, id);
            (literal("snapshot"), args, flags)
        },
        Command::Review { action, id, resolution } => {
            let cmd = match action {
                Some(ReviewAction::Accept) => {
                    push_arg_opt(&mut args, id);
                    "review accept"
                },
                Some(ReviewAction::Reject) => {
                    push_arg_opt(&mut args, id);
                    "review reject"
                },
                Some(ReviewAction::Resolve) => {
                    push_arg_opt(&mut args, id);
                    set_flag_opt(&mut flags, "resolution", resolution);
                    "review resolve"
                },
                Some(ReviewAction::Dismiss) => {
                    push_arg_opt(&mut args, id);
                    "review dismiss"
                },
                None => "review",
            };
            (literal(cmd), args, flags)
        },
        Command::Next { mode, id } => {
            let cmd = match mode {
                Some(NextMode::Prompt) => "next prompt",
                Some(NextMode::Run) => "next run",
                None => "next",
            };
            push_arg_opt(&mut args, id);
            (literal(cmd), args, flags)
        },
        Command::History { event_type, entity, since, limit } => {
            set_flag_opt(&mut flags, "type", event_type);
            set_flag_opt(&mut flags, "entity", entity);
            set_flag_opt(&mut flags, "since", since);
            set_flag(&mut flags, "limit", &decimal_string(*limit as u64));
            (literal("history"), args, flags)
        },
        Command::Icp { action } => build_entity_request("icp", action, &mut flags),
        Command::PainPoint { action } => build_entity_request("pain-point", action, &mut flags),
        Command::ValueProp { action } => build_entity_request("value-prop", action, &mut flags),
        Command::Experiment { action } => build_entity_request("experiment", action, &mut flags),
        Command::Channel { action } => build_entity_request("channel", action, &mut flags),
        Command::Competitor { action } => build_entity_request("competitor", action, &mut flags),
        Command::Contact { action } => build_entity_request("contact", action, &mut flags),
        Command::Project { action } => match action {
            ProjectAction::List => (literal("project list"), args, flags),
            ProjectAction::Create { name, description, brief } => {
                set_flag(&mut flags, "name", name);
                set_flag(&mut flags, "description", description);
                set_flag_opt(&mut flags, "brief", brief);
                (literal("init"), args, flags)
            },
            ProjectAction::Update { slug, name, description } => {
                push_arg_opt(&mut args, slug);
                set_flag_opt(&mut flags, "name", name);
                set_flag_opt(&mut flags, "description", description);
                (literal("project update"), args, flags)
            },
            ProjectAction::Delete { slug } => {
                push_arg_opt(&mut args, slug);
                (literal("project delete"), args, flags)
            },
            ProjectAction::Switch { .. } => (literal("project switch"), args, flags),
        },
        Command::User { action } => match action {
            UserAction::Create { email, name, team, team_display } => {
                set_flag(&mut flags, "email", email);
                set_flag(&mut flags, "name", name);
                set_flag(&mut flags, "team", team);
                set_flag_opt(&mut flags, "team-display", team_display);
                args.push(literal("create"));
                assert(views(args@) =~= seq!["create"@]);
                (literal("user"), args, flags)
            },
        },
        Command::Apikey { action } => match action {
            ApikeyAction::Create { user, name } => {
                set_flag_opt(&mut flags, "user", user);
                set_flag(&mut flags, "name", name);
                args.push(literal("create"));
                assert(views(args@) =~= seq!["create"@]);
                (literal("apikey"), args, flags)
            },
        },
        Command::Meter { action } => {
            let word = match action {
                Some(MeterAction::History { limit }) => {
                    set_flag(&mut flags, "limit", &decimal_string(*limit as u64));
                    "history"
                },
                Some(MeterAction::Tiers) => "tiers",
                _ => "balance",
            };
            args.push(literal(word));
            assert(views(args@) =~= seq![word@]);
            (literal("meter"), args, flags)
        },
        Command::Whoami => (literal("whoami"), args, flags),
        Command::Tick => (literal("_tick"), args, flags),
        Command::Loop { id } => {
            args.push(id.clone());
            assert(views(args@) =~= seq![id@]);
            (literal("_loop"), args, flags)
        },
        Command::Login { .. } => (literal("login"), args, flags),
        Command::Logout => (literal("logout"), args, flags),
    }
}

} // verus!
