//! Properties of the library that span its functions.

use vstd::prelude::*;

use crate::cli::{
    ApikeyAction, Cli, Command, EntityAction, MeterAction, NextMode, OutputFormat, ProjectAction,
    ReviewAction, UserAction,
};
use crate::credentials::{
    api_key_choice, daemon_url_choice, default_url, login_url_choice, permission_warning_text,
};
use crate::reply::{
    LoginReply, canonical_reason, is_login_reply, message_or_error, or_else, reply_error,
    status_display,
};
use crate::json::{Json, compact_json, json_get, json_str};
use crate::meter::{is_price_order, lemma_price_orders_agree};
use crate::request::{
    FlagMap, entity_envelope, global_flags, push_opt, request_envelope, sends_envelope, set_opt,
    with_fields,
};
use crate::output::{
    human, human_items, human_member, human_members, markdown, markdown_list, markdown_member,
    markdown_members, scalar_text,
};
use crate::text::{
    decimal, digit_char, digits_value, radix_digits, group_thousands, is_digit, is_first_index_of, is_white_space,
    pad_left, pad_right, split_once_char, trim_end_char, trim_end_white, trim_start_white, trim_white,
};

verus! {

/// The value of flag `key` in `m`, if it is set.
pub open spec fn flag_value(m: FlagMap, key: Seq<char>) -> Option<Seq<char>> {
    if m.dom().contains(key) {
        Some(m[key])
    } else {
        None
    }
}

/// The characters of an optional string.
pub open spec fn opt_chars(o: Option<String>) -> Option<Seq<char>> {
    match o {
        Some(s) => Some(s@),
        None => None,
    }
}

/// The `--field` values of a command: those of an entity add or edit,
/// none for any other command.
pub open spec fn entity_fields(c: Command) -> Seq<String> {
    match c {
        Command::Icp { action } | Command::PainPoint { action } | Command::ValueProp { action }
        | Command::Experiment { action } | Command::Channel { action } | Command::Competitor {
            action,
        } | Command::Contact { action } => match action {
            EntityAction::Add { fields, .. } | EntityAction::Edit { fields, .. } => fields@,
            _ => seq![],
        },
        _ => seq![],
    }
}

/// Whether one of the `--field` values of a command sets the flag `key`.
pub open spec fn field_sets(c: Command, key: Seq<char>) -> bool {
    exists|i: int|
        0 <= i < entity_fields(c).len() && (#[trigger] split_once_char(
            entity_fields(c)[i]@,
            '=',
        ) matches Some((k, _)) && k == key)
}

/// Fields that do not set `key` leave its value as it was; a field without
/// `=` sets nothing.
pub proof fn law_fields_keep_other_flags(m: FlagMap, fields: Seq<String>, key: Seq<char>)
    requires
        forall|i: int|
            0 <= i < fields.len() ==> !(#[trigger] split_once_char(fields[i]@, '=') matches Some(
                (k, _),
            ) && k == key),
    ensures
        flag_value(with_fields(m, fields), key) == flag_value(m, key),
    decreases fields.len(),
{
    if fields.len() > 0 {
        let rest = fields.drop_last();
        assert forall|i: int|
            0 <= i < rest.len() implies !(#[trigger] split_once_char(rest[i]@, '=') matches Some(
            (k, _),
        ) && k == key) by {
            assert(rest[i] == fields[i]);
        }
        law_fields_keep_other_flags(m, rest, key);
        assert(split_once_char(fields[fields.len() - 1]@, '=') == split_once_char(
            fields.last()@,
            '=',
        ));
    }
}

/// An entity envelope keeps the flag `key` of `m` where `key` is neither
/// `name` nor `description` and no field sets it.
proof fn lemma_entity_envelope_keeps(c: Command, entity: Seq<char>, action: EntityAction, m: FlagMap, key: Seq<char>)
    requires
        key != "name"@,
        key != "description"@,
        entity_fields(c) == match action {
            EntityAction::Add { fields, .. } | EntityAction::Edit { fields, .. } => fields@,
            _ => seq![],
        },
        !field_sets(c, key),
    ensures
        flag_value(entity_envelope(entity, action, m).2, key) == flag_value(m, key),
{
    match action {
        EntityAction::Add { name, description, fields } | EntityAction::Edit {
            name,
            description,
            fields,
            ..
        } => {
            let start = set_opt(set_opt(m, "name"@, name), "description"@, description);
            assert forall|i: int|
                0 <= i < fields@.len() implies !(#[trigger] split_once_char(
                fields@[i]@,
                '=',
            ) matches Some((k, _)) && k == key) by {
                if split_once_char(fields@[i]@, '=') matches Some((k, _)) && k == key {
                    assert(entity_fields(c)[i] == fields@[i]);
                }
            }
            law_fields_keep_other_flags(start, fields@, key);
        },
        _ => {},
    }
}

/// The flag names of the envelopes are all different.
proof fn lemma_key_names()
    ensures
        "project"@ != "team"@,
        "project"@ != "name"@,
        "project"@ != "description"@,
        "project"@ != "brief"@,
        "project"@ != "type"@,
        "project"@ != "entity"@,
        "project"@ != "since"@,
        "project"@ != "limit"@,
        "project"@ != "email"@,
        "project"@ != "team-display"@,
        "project"@ != "user"@,
        "project"@ != "resolution"@,
        "team"@ != "name"@,
        "team"@ != "description"@,
        "team"@ != "brief"@,
        "team"@ != "type"@,
        "team"@ != "entity"@,
        "team"@ != "since"@,
        "team"@ != "limit"@,
        "team"@ != "email"@,
        "team"@ != "team-display"@,
        "team"@ != "user"@,
        "team"@ != "resolution"@,
        "name"@ != "description"@,
        "name"@ != "brief"@,
        "name"@ != "type"@,
        "name"@ != "entity"@,
        "name"@ != "since"@,
        "name"@ != "limit"@,
        "name"@ != "email"@,
        "name"@ != "team-display"@,
        "name"@ != "user"@,
        "name"@ != "resolution"@,
        "description"@ != "brief"@,
        "description"@ != "type"@,
        "description"@ != "entity"@,
        "description"@ != "since"@,
        "description"@ != "limit"@,
        "description"@ != "email"@,
        "description"@ != "team-display"@,
        "description"@ != "user"@,
        "description"@ != "resolution"@,
        "brief"@ != "type"@,
        "brief"@ != "entity"@,
        "brief"@ != "since"@,
        "brief"@ != "limit"@,
        "brief"@ != "email"@,
        "brief"@ != "team-display"@,
        "brief"@ != "user"@,
        "brief"@ != "resolution"@,
        "type"@ != "entity"@,
        "type"@ != "since"@,
        "type"@ != "limit"@,
        "type"@ != "email"@,
        "type"@ != "team-display"@,
        "type"@ != "user"@,
        "type"@ != "resolution"@,
        "entity"@ != "since"@,
        "entity"@ != "limit"@,
        "entity"@ != "email"@,
        "entity"@ != "team-display"@,
        "entity"@ != "user"@,
        "entity"@ != "resolution"@,
        "since"@ != "limit"@,
        "since"@ != "email"@,
        "since"@ != "team-display"@,
        "since"@ != "user"@,
        "since"@ != "resolution"@,
        "limit"@ != "email"@,
        "limit"@ != "team-display"@,
        "limit"@ != "user"@,
        "limit"@ != "resolution"@,
        "email"@ != "team-display"@,
        "email"@ != "user"@,
        "email"@ != "resolution"@,
        "team-display"@ != "user"@,
        "team-display"@ != "resolution"@,
        "user"@ != "resolution"@,
{
    reveal_strlit("project");
    reveal_strlit("team");
    reveal_strlit("name");
    reveal_strlit("description");
    reveal_strlit("brief");
    reveal_strlit("type");
    reveal_strlit("entity");
    reveal_strlit("since");
    reveal_strlit("limit");
    reveal_strlit("email");
    reveal_strlit("team-display");
    reveal_strlit("user");
    reveal_strlit("resolution");
    assert("project"@.len() != "team"@.len());
    assert("project"@.len() != "name"@.len());
    assert("project"@.len() != "description"@.len());
    assert("project"@.len() != "brief"@.len());
    assert("project"@.len() != "type"@.len());
    assert("project"@.len() != "entity"@.len());
    assert("project"@.len() != "since"@.len());
    assert("project"@.len() != "limit"@.len());
    assert("project"@.len() != "email"@.len());
    assert("project"@.len() != "team-display"@.len());
    assert("project"@.len() != "user"@.len());
    assert("project"@.len() != "resolution"@.len());
    assert("team"@[0] != "name"@[0]);
    assert("team"@.len() != "description"@.len());
    assert("team"@.len() != "brief"@.len());
    assert("team"@[1] != "type"@[1]);
    assert("team"@.len() != "entity"@.len());
    assert("team"@.len() != "since"@.len());
    assert("team"@.len() != "limit"@.len());
    assert("team"@.len() != "email"@.len());
    assert("team"@.len() != "team-display"@.len());
    assert("team"@[0] != "user"@[0]);
    assert("team"@.len() != "resolution"@.len());
    assert("name"@.len() != "description"@.len());
    assert("name"@.len() != "brief"@.len());
    assert("name"@[0] != "type"@[0]);
    assert("name"@.len() != "entity"@.len());
    assert("name"@.len() != "since"@.len());
    assert("name"@.len() != "limit"@.len());
    assert("name"@.len() != "email"@.len());
    assert("name"@.len() != "team-display"@.len());
    assert("name"@[0] != "user"@[0]);
    assert("name"@.len() != "resolution"@.len());
    assert("description"@.len() != "brief"@.len());
    assert("description"@.len() != "type"@.len());
    assert("description"@.len() != "entity"@.len());
    assert("description"@.len() != "since"@.len());
    assert("description"@.len() != "limit"@.len());
    assert("description"@.len() != "email"@.len());
    assert("description"@.len() != "team-display"@.len());
    assert("description"@.len() != "user"@.len());
    assert("description"@.len() != "resolution"@.len());
    assert("brief"@.len() != "type"@.len());
    assert("brief"@.len() != "entity"@.len());
    assert("brief"@[0] != "since"@[0]);
    assert("brief"@[0] != "limit"@[0]);
    assert("brief"@[0] != "email"@[0]);
    assert("brief"@.len() != "team-display"@.len());
    assert("brief"@.len() != "user"@.len());
    assert("brief"@.len() != "resolution"@.len());
    assert("type"@.len() != "entity"@.len());
    assert("type"@.len() != "since"@.len());
    assert("type"@.len() != "limit"@.len());
    assert("type"@.len() != "email"@.len());
    assert("type"@.len() != "team-display"@.len());
    assert("type"@[0] != "user"@[0]);
    assert("type"@.len() != "resolution"@.len());
    assert("entity"@.len() != "since"@.len());
    assert("entity"@.len() != "limit"@.len());
    assert("entity"@.len() != "email"@.len());
    assert("entity"@.len() != "team-display"@.len());
    assert("entity"@.len() != "user"@.len());
    assert("entity"@.len() != "resolution"@.len());
    assert("since"@[0] != "limit"@[0]);
    assert("since"@[0] != "email"@[0]);
    assert("since"@.len() != "team-display"@.len());
    assert("since"@.len() != "user"@.len());
    assert("since"@.len() != "resolution"@.len());
    assert("limit"@[0] != "email"@[0]);
    assert("limit"@.len() != "team-display"@.len());
    assert("limit"@.len() != "user"@.len());
    assert("limit"@.len() != "resolution"@.len());
    assert("email"@.len() != "team-display"@.len());
    assert("email"@.len() != "user"@.len());
    assert("email"@.len() != "resolution"@.len());
    assert("team-display"@.len() != "user"@.len());
    assert("team-display"@.len() != "resolution"@.len());
    assert("user"@.len() != "resolution"@.len());
}

proof fn lemma_flag_names()
    ensures
        "project"@ != "team"@,
        "project"@ != "name"@,
        "project"@ != "description"@,
        "project"@ != "brief"@,
        "project"@ != "resolution"@,
        "project"@ != "type"@,
        "project"@ != "entity"@,
        "project"@ != "since"@,
        "project"@ != "limit"@,
        "project"@ != "email"@,
        "project"@ != "team-display"@,
        "project"@ != "user"@,
        "team"@ != "name"@,
        "team"@ != "description"@,
        "team"@ != "brief"@,
        "team"@ != "resolution"@,
        "team"@ != "type"@,
        "team"@ != "entity"@,
        "team"@ != "since"@,
        "team"@ != "limit"@,
        "team"@ != "email"@,
        "team"@ != "team-display"@,
        "team"@ != "user"@,
{
    reveal_strlit("project");
    reveal_strlit("team");
    reveal_strlit("name");
    reveal_strlit("description");
    reveal_strlit("brief");
    reveal_strlit("resolution");
    reveal_strlit("type");
    reveal_strlit("entity");
    reveal_strlit("since");
    reveal_strlit("limit");
    reveal_strlit("email");
    reveal_strlit("team-display");
    reveal_strlit("user");
    assert("project"@.len() == 7);
    assert("team"@[0] != "name"@[0]);
    assert("team"@[1] != "type"@[1]);
    assert("team"@.len() == 4);
    assert("name"@.len() == 4);
    assert("description"@.len() == 11);
    assert("brief"@.len() == 5);
    assert("resolution"@.len() == 10);
    assert("type"@.len() == 4);
    assert("entity"@.len() == 6);
    assert("since"@.len() == 5);
    assert("limit"@.len() == 5);
    assert("email"@.len() == 5);
    assert("team-display"@.len() == 12);
    assert("user"@.len() == 4);
}

proof fn lemma_global_flags(team: Option<String>, project: Option<String>, default_project: Option<String>)
    ensures
        flag_value(global_flags(team, project, default_project), "project"@) == match project {
            Some(p) => Some(p@),
            None => opt_chars(default_project),
        },
        flag_value(global_flags(team, project, default_project), "team"@) == opt_chars(team),
{
    lemma_flag_names();
    let e = Map::<Seq<char>, Seq<char>>::empty();
    assert(!e.dom().contains("project"@));
    assert(!e.dom().contains("team"@));
}

/// Every envelope carries the `project` flag of `--project`, or, where
/// that is absent, of the stored default project; only `--field
/// project=...` on an entity add or edit can change it.
pub proof fn law_project_flag(cli: Cli, default_project: Option<String>)
    requires
        sends_envelope(cli.command),
        !field_sets(cli.command, "project"@),
    ensures
        flag_value(request_envelope(cli, default_project).2, "project"@) == match cli.project {
            Some(p) => Some(p@),
            None => opt_chars(default_project),
        },
{
    lemma_flag_names();
    lemma_global_flags(cli.team, cli.project, default_project);
    let m = request_envelope(cli, default_project).2;
    let g = global_flags(cli.team, cli.project, default_project);
    match cli.command {
        Command::Review { action, resolution, .. } => {
            match action {
                Some(ReviewAction::Resolve) => {
                    assert(m == set_opt(g, "resolution"@, resolution));
                },
                _ => {
                    assert(m == g);
                },
            }
        },
        Command::Icp { action } => lemma_entity_envelope_keeps(cli.command, "icp"@, action, g, "project"@),
        Command::PainPoint { action } => lemma_entity_envelope_keeps(cli.command, "pain-point"@, action, g, "project"@),
        Command::ValueProp { action } => lemma_entity_envelope_keeps(cli.command, "value-prop"@, action, g, "project"@),
        Command::Experiment { action } => lemma_entity_envelope_keeps(cli.command, "experiment"@, action, g, "project"@),
        Command::Channel { action } => lemma_entity_envelope_keeps(cli.command, "channel"@, action, g, "project"@),
        Command::Competitor { action } => lemma_entity_envelope_keeps(cli.command, "competitor"@, action, g, "project"@),
        Command::Contact { action } => lemma_entity_envelope_keeps(cli.command, "contact"@, action, g, "project"@),
        _ => {},
    }
}

/// Every envelope carries the `team` flag of `--team`, except `user create`,
/// whose `team` is the new user's team, and an entity add or edit that sets
/// it by `--field`.
pub proof fn law_team_flag(cli: Cli, default_project: Option<String>)
    requires
        sends_envelope(cli.command),
        !field_sets(cli.command, "team"@),
        !(cli.command is User),
    ensures
        flag_value(request_envelope(cli, default_project).2, "team"@) == opt_chars(cli.team),
{
    lemma_flag_names();
    lemma_global_flags(cli.team, cli.project, default_project);
    let m = request_envelope(cli, default_project).2;
    let g = global_flags(cli.team, cli.project, default_project);
    match cli.command {
        Command::Review { action, resolution, .. } => {
            match action {
                Some(ReviewAction::Resolve) => {
                    assert(m == set_opt(g, "resolution"@, resolution));
                },
                _ => {
                    assert(m == g);
                },
            }
        },
        Command::Icp { action } => lemma_entity_envelope_keeps(cli.command, "icp"@, action, g, "team"@),
        Command::PainPoint { action } => lemma_entity_envelope_keeps(cli.command, "pain-point"@, action, g, "team"@),
        Command::ValueProp { action } => lemma_entity_envelope_keeps(cli.command, "value-prop"@, action, g, "team"@),
        Command::Experiment { action } => lemma_entity_envelope_keeps(cli.command, "experiment"@, action, g, "team"@),
        Command::Channel { action } => lemma_entity_envelope_keeps(cli.command, "channel"@, action, g, "team"@),
        Command::Competitor { action } => lemma_entity_envelope_keeps(cli.command, "competitor"@, action, g, "team"@),
        Command::Contact { action } => lemma_entity_envelope_keeps(cli.command, "contact"@, action, g, "team"@),
        _ => {},
    }
}

/// The stored default project matters only when `--project` is absent.
pub proof fn law_explicit_project_wins(
    cli: Cli,
    stored_a: Option<String>,
    stored_b: Option<String>,
)
    requires
        cli.project is Some,
    ensures
        request_envelope(cli, stored_a) == request_envelope(cli, stored_b),
{
}

/// `meter` without a subcommand sends what `meter balance` sends.
pub proof fn law_meter_defaults_to_balance(
    format: OutputFormat,
    project: Option<String>,
    team: Option<String>,
    verbose: bool,
    default_project: Option<String>,
)
    ensures
        request_envelope(
            Cli { format, project, team, verbose, command: Command::Meter { action: None } },
            default_project,
        ) == request_envelope(
            Cli {
                format,
                project,
                team,
                verbose,
                command: Command::Meter { action: Some(MeterAction::Balance) },
            },
            default_project,
        ),
{
}

/// `project create` is an alias of `init`: both send the same envelope.
pub proof fn law_project_create_is_init(
    format: OutputFormat,
    project: Option<String>,
    team: Option<String>,
    verbose: bool,
    default_project: Option<String>,
    name: String,
    description: String,
    brief: Option<String>,
)
    ensures
        request_envelope(
            Cli {
                format,
                project,
                team,
                verbose,
                command: Command::Project {
                    action: ProjectAction::Create { name, description, brief },
                },
            },
            default_project,
        ) == request_envelope(
            Cli { format, project, team, verbose, command: Command::Init { name, description, brief } },
            default_project,
        ),
{
}

proof fn lemma_trim_end_char(s: Seq<char>, c: char)
    ensures
        trim_end_char(s, c).len() == 0 || trim_end_char(s, c).last() != c,
        trim_end_char(trim_end_char(s, c), c) == trim_end_char(s, c),
    decreases s.len(),
{
    if s.len() > 0 && s.last() == c {
        lemma_trim_end_char(s.drop_last(), c);
    }
}

/// A URL picked for `login` or for a request never ends with `/` (unless
/// the stored URL does), and trimming it again changes nothing.
pub proof fn law_urls_have_no_trailing_slash(
    flag: Option<Seq<char>>,
    env: Option<Seq<char>>,
    stored: Option<Seq<char>>,
)
    ensures
        ({
            let u = login_url_choice(flag, env);
            (u.len() == 0 || u.last() != '/') && trim_end_char(u, '/') == u
        }),
        ({
            let u = daemon_url_choice(env, stored);
            (env matches Some(e) && e.len() > 0) ==> (u.len() == 0 || u.last() != '/')
        }),
{
    reveal_strlit("https://api.cantrip.ai");
    lemma_trim_end_char(default_url(), '/');
    if let Some(u) = flag {
        lemma_trim_end_char(u, '/');
    }
    if let Some(e) = env {
        lemma_trim_end_char(e, '/');
    }
}

/// Every reply with a status of 400 or above is an error, whatever its
/// body; a reply below 400 is an error exactly where its body has a string
/// member `error`, which is then the message.
pub proof fn law_failure_status_is_error(status: u16, body: Json)
    ensures
        status >= 400 ==> reply_error(status, body) is Some,
        status < 400 ==> reply_error(status, body) == crate::json::str_member(body, "error"@),
{
}

/// The packs have one price order: ascending price, equal prices in the
/// order of the reply; so the `meter tiers` form is fixed by the reply.
pub proof fn law_price_order_is_unique(
    recs: Seq<(Seq<char>, nat, nat)>,
    o1: Seq<int>,
    o2: Seq<int>,
)
    requires
        is_price_order(recs, o1),
        is_price_order(recs, o2),
    ensures
        o1 == o2,
{
    lemma_price_orders_agree(recs, o1, o2, o1.len() as int);
    assert(o1 =~= o2);
}

/// A review action sends the id it is given, and nothing else, as its
/// arguments; `review` alone sends none. The command names the action.
pub proof fn law_review_sends_id(cli: Cli, default_project: Option<String>)
    requires
        cli.command is Review,
    ensures
        match cli.command {
            Command::Review { action, id, .. } => {
                let env = request_envelope(cli, default_project);
                &&& env.1 == match action {
                    Some(_) => match id {
                        Some(i) => seq![i@],
                        None => Seq::<Seq<char>>::empty(),
                    },
                    None => Seq::<Seq<char>>::empty(),
                }
                &&& env.0 == match action {
                    Some(ReviewAction::Accept) => "review accept"@,
                    Some(ReviewAction::Reject) => "review reject"@,
                    Some(ReviewAction::Resolve) => "review resolve"@,
                    Some(ReviewAction::Dismiss) => "review dismiss"@,
                    None => "review"@,
                }
            },
            _ => true,
        },
{
}

/// The `--field` values of an entity add or edit.
pub open spec fn action_fields(a: EntityAction) -> Seq<String> {
    match a {
        EntityAction::Add { fields, .. } | EntityAction::Edit { fields, .. } => fields@,
        _ => seq![],
    }
}

/// The `--name` of an entity add or edit.
pub open spec fn action_name(a: EntityAction) -> Option<String> {
    match a {
        EntityAction::Add { name, .. } | EntityAction::Edit { name, .. } => name,
        _ => None,
    }
}

/// The `--description` of an entity add or edit.
pub open spec fn action_description(a: EntityAction) -> Option<String> {
    match a {
        EntityAction::Add { description, .. } | EntityAction::Edit { description, .. } => description,
        _ => None,
    }
}

/// An entity add or edit sends `--name` as the flag `name` and
/// `--description` as the flag `description`, unless a `--field` sets that
/// flag; without the option the flag keeps its earlier value. Show and edit
/// send the id as their one argument; list and add send none.
pub proof fn law_entity_name_and_description(
    entity: Seq<char>,
    action: EntityAction,
    m: FlagMap,
    key: Seq<char>,
)
    requires
        key == "name"@ || key == "description"@,
        forall|i: int|
            0 <= i < action_fields(action).len() ==> !(#[trigger] split_once_char(
                action_fields(action)[i]@,
                '=',
            ) matches Some((k, _)) && k == key),
    ensures
        (action is Add || action is Edit) ==> flag_value(entity_envelope(entity, action, m).2, key)
            == match (if key == "name"@ {
            action_name(action)
        } else {
            action_description(action)
        }) {
            Some(x) => Some(x@),
            None => flag_value(m, key),
        },
        entity_envelope(entity, action, m).1 == match action {
            EntityAction::Show { id } | EntityAction::Edit { id, .. } => seq![id@],
            _ => Seq::<Seq<char>>::empty(),
        },
{
    lemma_flag_names();
    reveal_strlit("name");
    reveal_strlit("description");
    assert("name"@.len() != "description"@.len());
    match action {
        EntityAction::Add { name, description, fields } | EntityAction::Edit {
            name,
            description,
            fields,
            ..
        } => {
            let start = set_opt(set_opt(m, "name"@, name), "description"@, description);
            assert(action_fields(action) == fields@);
            law_fields_keep_other_flags(start, fields@, key);
        },
        _ => {},
    }
}

/// The API key for a request: a non-empty `CANTRIP_API_KEY` is used as it
/// is; where it is absent or empty (the two are alike), a non-empty stored
/// key is used; with neither there is no key.
pub proof fn law_api_key_choice(env: Option<Seq<char>>, stored: Option<Seq<char>>)
    ensures
        (env matches Some(e) && e.len() > 0) ==> api_key_choice(env, stored) == env,
        api_key_choice(None, stored) == api_key_choice(Some(Seq::<char>::empty()), stored),
        (stored matches Some(s) && s.len() > 0) ==> api_key_choice(None, stored) == stored,
        (stored is None || stored == Some(Seq::<char>::empty())) ==> api_key_choice(None, stored)
            is None,
{
}

/// The daemon URL for a request: a non-empty `CANTRIP_URL` without its
/// trailing slashes; where it is absent or empty (the two are alike), a
/// non-empty stored URL as it is; else `https://api.cantrip.ai`.
pub proof fn law_daemon_url_choice(env: Option<Seq<char>>, stored: Option<Seq<char>>)
    ensures
        (env matches Some(e) && e.len() > 0) ==> daemon_url_choice(env, stored) == trim_end_char(
            env->0,
            '/',
        ),
        daemon_url_choice(None, stored) == daemon_url_choice(Some(Seq::<char>::empty()), stored),
        (stored matches Some(s) && s.len() > 0) ==> daemon_url_choice(None, stored) == stored->0,
        (stored is None || stored == Some(Seq::<char>::empty())) ==> daemon_url_choice(None, stored)
            == "https://api.cantrip.ai"@,
{
}

/// The URL that `login` validates against: `--url` without its trailing
/// slashes; without `--url`, a non-empty `CANTRIP_URL` without its trailing
/// slashes; else `https://api.cantrip.ai`. No stored value takes part.
pub proof fn law_login_url_choice(flag: Option<Seq<char>>, env: Option<Seq<char>>)
    ensures
        (flag matches Some(u)) ==> login_url_choice(flag, env) == trim_end_char(flag->0, '/'),
        (env matches Some(e) && e.len() > 0) ==> login_url_choice(None, env) == trim_end_char(
            env->0,
            '/',
        ),
        (env is None || env == Some(Seq::<char>::empty())) ==> login_url_choice(None, env)
            == "https://api.cantrip.ai"@,
{
}

/// `decimal(n)` is the decimal numeral of `n`: one or more digits, with no
/// leading zero, that stand for `n`.
pub proof fn law_decimal_is_numeral(n: nat)
    ensures
        decimal(n).len() > 0,
        forall|j: int| 0 <= j < decimal(n).len() ==> is_digit(#[trigger] decimal(n)[j]),
        digits_value(decimal(n)) == n,
        decimal(n).len() > 1 ==> decimal(n)[0] != '0',
        n > 0 ==> decimal(n)[0] != '0',
    decreases n,
{
    if n >= 10 {
        law_decimal_is_numeral(n / 10);
        let s = decimal(n / 10);
        let d = digit_char(n % 10);
        assert(decimal(n) == s.push(d));
        assert(s.push(d).drop_last() =~= s);
        assert(d as int == 48 + n % 10);
        assert(s.push(d)[0] == s[0]);
        assert(s.push(d).last() == d);
        assert(digits_value(s.push(d)) == digits_value(s) * 10 + ((d as int) - 48) as nat);
        assert((n / 10) * 10 + n % 10 == n);
    } else {
        assert(digit_char(n) as int == 48 + n);
        assert(seq![digit_char(n)].drop_last() =~= Seq::<char>::empty());
        assert(digits_value(Seq::<char>::empty()) == 0);
        assert(seq![digit_char(n)].last() == digit_char(n));
    }
}

/// The first `j` elements of an array are rendered at the start of its
/// rendering, as they would be alone.
proof fn lemma_human_items_prefix(items: Seq<Json>, pad: Seq<char>, j: int)
    requires
        0 <= j <= items.len(),
    ensures
        human_items(items.take(j), pad).is_prefix_of(human_items(items, pad)),
    decreases items.len(),
{
    if j == items.len() {
        assert(items.take(j) =~= items);
    } else {
        assert(items.drop_last().take(j) =~= items.take(j));
        lemma_human_items_prefix(items.drop_last(), pad, j);
    }
}

/// In the human rendering of an array, the element at position `i` comes
/// after those before it, introduced by the line `pad[i]` with `i` as a
/// decimal numeral, and rendered two spaces deeper.
pub proof fn law_human_array_labels(items: Seq<Json>, pad: Seq<char>, i: int)
    requires
        0 <= i < items.len(),
    ensures
        (human_items(items.take(i), pad) + pad + "["@ + decimal(i as nat) + "]\n"@ + human(
            items[i],
            pad + "  "@,
        )).is_prefix_of(human_items(items, pad)),
{
    lemma_human_items_prefix(items, pad, i + 1);
    let t = items.take(i + 1);
    assert(t.drop_last() =~= items.take(i));
    assert(t.last() == items[i]);
}

/// The optional value `o` as a list of at most one argument.
pub open spec fn opt_arg(o: Option<String>) -> Seq<Seq<char>> {
    match o {
        Some(x) => seq![x@],
        None => Seq::<Seq<char>>::empty(),
    }
}

/// The word of an entity operation as the command line writes it.
pub open spec fn operation_word(a: EntityAction) -> Seq<char> {
    match a {
        EntityAction::List => "list"@,
        EntityAction::Show { .. } => "show"@,
        EntityAction::Add { .. } => "add"@,
        EntityAction::Edit { .. } => "edit"@,
    }
}

/// The command and arguments that each command line sends: the words of
/// the command, then the ids, slugs and types it was given, in order.
pub proof fn law_command_words_and_args(cli: Cli, default_project: Option<String>)
    requires
        sends_envelope(cli.command),
    ensures
        ({
            let env = request_envelope(cli, default_project);
            match cli.command {
                Command::Init { .. } => env.0 == "init"@ && env.1 == Seq::<Seq<char>>::empty(),
                Command::Snapshot { entity_type, id } => env.0 == "snapshot"@ && env.1 == opt_arg(
                    entity_type,
                ) + opt_arg(id),
                Command::Next { mode, id } => env.1 == opt_arg(id) && env.0 == match mode {
                    Some(NextMode::Prompt) => "next prompt"@,
                    Some(NextMode::Run) => "next run"@,
                    None => "next"@,
                },
                Command::History { .. } => env.0 == "history"@ && env.1 == Seq::<Seq<char>>::empty(),
                Command::Icp { action } => env.0 == "icp"@ + " "@ + operation_word(action),
                Command::PainPoint { action } => env.0 == "pain-point"@ + " "@ + operation_word(action),
                Command::ValueProp { action } => env.0 == "value-prop"@ + " "@ + operation_word(action),
                Command::Experiment { action } => env.0 == "experiment"@ + " "@ + operation_word(action),
                Command::Channel { action } => env.0 == "channel"@ + " "@ + operation_word(action),
                Command::Competitor { action } => env.0 == "competitor"@ + " "@ + operation_word(action),
                Command::Contact { action } => env.0 == "contact"@ + " "@ + operation_word(action),
                Command::Project { action } => match action {
                    ProjectAction::List => env.0 == "project list"@ && env.1 == Seq::<
                        Seq<char>,
                    >::empty(),
                    ProjectAction::Update { slug, .. } => env.0 == "project update"@ && env.1
                        == opt_arg(slug),
                    ProjectAction::Delete { slug } => env.0 == "project delete"@ && env.1
                        == opt_arg(slug),
                    _ => true,
                },
                Command::User { .. } => env.0 == "user"@ && env.1 == seq!["create"@],
                Command::Apikey { .. } => env.0 == "apikey"@ && env.1 == seq!["create"@],
                Command::Meter { action } => env.0 == "meter"@ && env.1 == match action {
                    Some(MeterAction::History { .. }) => seq!["history"@],
                    Some(MeterAction::Tiers) => seq!["tiers"@],
                    _ => seq!["balance"@],
                },
                Command::Whoami => env.0 == "whoami"@ && env.1 == Seq::<Seq<char>>::empty(),
                Command::Tick => env.0 == "_tick"@ && env.1 == Seq::<Seq<char>>::empty(),
                Command::Loop { id } => env.0 == "_loop"@ && env.1 == seq![id@],
                _ => true,
            }
        }),
{
    match cli.command {
        Command::Snapshot { entity_type, id } => {
            let env = request_envelope(cli, default_project);
            let first = push_opt(Seq::<Seq<char>>::empty(), entity_type);
            assert(env.1 == push_opt(first, id));
            assert(first =~= opt_arg(entity_type));
            match id {
                Some(i) => assert(first.push(i@) =~= first + seq![i@]),
                None => assert(first =~= first + Seq::<Seq<char>>::empty()),
            }
        },
        Command::Project { action } => match action {
            ProjectAction::Update { slug, .. } | ProjectAction::Delete { slug } => {
                assert(push_opt(seq![], slug) =~= opt_arg(slug));
            },
            _ => {},
        },
        Command::Next { id, .. } => {
            assert(push_opt(seq![], id) =~= opt_arg(id));
        },
        _ => {},
    }
}

/// The flags that each command line sends besides `project` and `team`:
/// every option it was given, under its own name (`--type` as `type`,
/// `--team-display` as `team-display`, a count as its decimal numeral); an
/// option not given sends no flag.
pub proof fn law_command_flags(cli: Cli, default_project: Option<String>)
    requires
        sends_envelope(cli.command),
    ensures
        ({
            let f = request_envelope(cli, default_project).2;
            match cli.command {
                Command::Init { name, description, brief } => flag_value(f, "name"@) == Some(
                    name@,
                ) && flag_value(f, "description"@) == Some(description@) && flag_value(
                    f,
                    "brief"@,
                ) == opt_chars(brief),
                Command::Review { action, resolution, .. } => flag_value(f, "resolution"@) == (
                if action == Some(ReviewAction::Resolve) {
                    opt_chars(resolution)
                } else {
                    None
                }),
                Command::History { event_type, entity, since, limit } => flag_value(f, "type"@)
                    == opt_chars(event_type) && flag_value(f, "entity"@) == opt_chars(entity)
                    && flag_value(f, "since"@) == opt_chars(since) && flag_value(f, "limit"@)
                    == Some(decimal(limit as nat)),
                Command::Project { action: ProjectAction::Update { name, description, .. } } =>
                    flag_value(f, "name"@) == opt_chars(name) && flag_value(f, "description"@)
                    == opt_chars(description),
                Command::User { action: UserAction::Create { email, name, team, team_display } } =>
                    flag_value(f, "email"@) == Some(email@) && flag_value(f, "name"@) == Some(
                    name@,
                ) && flag_value(f, "team"@) == Some(team@) && flag_value(f, "team-display"@)
                    == opt_chars(team_display),
                Command::Apikey { action: ApikeyAction::Create { user, name } } => flag_value(
                    f,
                    "user"@,
                ) == opt_chars(user) && flag_value(f, "name"@) == Some(name@),
                Command::Meter { action } => flag_value(f, "limit"@) == match action {
                    Some(MeterAction::History { limit }) => Some(decimal(limit as nat)),
                    _ => None,
                },
                _ => true,
            }
        }),
{
    lemma_key_names();
    let g = global_flags(cli.team, cli.project, default_project);
    assert(!g.dom().contains("name"@) && !g.dom().contains("description"@) && !g.dom().contains(
        "brief"@,
    ) && !g.dom().contains("resolution"@) && !g.dom().contains("type"@) && !g.dom().contains(
        "entity"@,
    ) && !g.dom().contains("since"@) && !g.dom().contains("limit"@) && !g.dom().contains(
        "email"@,
    ) && !g.dom().contains("team-display"@) && !g.dom().contains("user"@));
}

/// A field of `w` characters: `pad_left` puts spaces before `s` and
/// `pad_right` after it, as many as make up `w`, and none where `s` is
/// already as wide.
pub proof fn law_padding(s: Seq<char>, w: nat)
    ensures
        pad_left(s, w).len() == if s.len() >= w {
            s.len()
        } else {
            w
        },
        pad_right(s, w).len() == pad_left(s, w).len(),
        pad_left(s, w).skip(pad_left(s, w).len() - s.len()) == s,
        pad_right(s, w).take(s.len() as int) == s,
        forall|i: int| 0 <= i < pad_left(s, w).len() - s.len() ==> #[trigger] pad_left(s, w)[i] == ' ',
        forall|i: int| s.len() <= i < pad_right(s, w).len() ==> #[trigger] pad_right(s, w)[i] == ' ',
{
    assert(pad_left(s, w).skip(pad_left(s, w).len() - s.len()) =~= s);
    assert(pad_right(s, w).take(s.len() as int) =~= s);
}

/// Splitting at the first `c`: there is no split exactly where `s` holds
/// no `c`; a split gives the text before the first `c`, which holds none,
/// and the text after it, which put back together around `c` give `s`.
pub proof fn law_split_once(s: Seq<char>, c: char)
    ensures
        split_once_char(s, c) is None <==> !s.contains(c),
        split_once_char(s, c) matches Some((k, v)) ==> k + seq![c] + v == s && !k.contains(c),
{
    if s.contains(c) {
        let j = choose|j: int| 0 <= j < s.len() && s[j] == c;
        let i = first_index(s, c, j);
        assert(is_first_index_of(s, c, i));
    }
    if let Some((k, v)) = split_once_char(s, c) {
        let i = choose|i: int| is_first_index_of(s, c, i);
        assert(k + seq![c] + v =~= s);
        assert(s.contains(c)) by {
            assert(s[i] == c);
        }
    }
}

/// The first position of `c` in `s`, at or before `j` where `s[j]` is `c`.
proof fn first_index(s: Seq<char>, c: char, j: int) -> (i: int)
    requires
        0 <= j < s.len(),
        s[j] == c,
    ensures
        is_first_index_of(s, c, i),
    decreases j,
{
    if exists|k: int| 0 <= k < j && s[k] == c {
        let k = choose|k: int| 0 <= k < j && s[k] == c;
        first_index(s, c, k)
    } else {
        j
    }
}

/// Trimming `c` from the end keeps a prefix of `s`, removes only `c`s, and
/// leaves no `c` at the end.
pub proof fn law_trim_end(s: Seq<char>, c: char)
    ensures
        trim_end_char(s, c).is_prefix_of(s),
        forall|i: int| trim_end_char(s, c).len() <= i < s.len() ==> #[trigger] s[i] == c,
        trim_end_char(s, c).len() == 0 || trim_end_char(s, c).last() != c,
    decreases s.len(),
{
    if s.len() > 0 && s.last() == c {
        law_trim_end(s.drop_last(), c);
        assert forall|i: int| trim_end_char(s, c).len() <= i < s.len() implies #[trigger] s[i] == c by {
            if i < s.len() - 1 {
                assert(s.drop_last()[i] == s[i]);
            }
        }
    }
}

/// Trimming white space keeps a stretch of `s` that neither starts nor
/// ends with white space, removing only white space before and after it.
pub proof fn law_trim_white(s: Seq<char>) -> (ij: (int, int))
    ensures
        0 <= ij.0 <= ij.1 <= s.len(),
        trim_white(s) == s.subrange(ij.0, ij.1),
        forall|k: int| 0 <= k < ij.0 ==> is_white_space(#[trigger] s[k]),
        forall|k: int| ij.1 <= k < s.len() ==> is_white_space(#[trigger] s[k]),
        trim_white(s).len() > 0 ==> !is_white_space(trim_white(s)[0]) && !is_white_space(
            trim_white(s).last(),
        ),
{
    let j = lemma_trim_end_white(s);
    let t = s.take(j);
    let i = lemma_trim_start_white(t);
    assert(t.subrange(i, j) =~= s.subrange(i, j));
    assert forall|k: int| 0 <= k < i implies is_white_space(#[trigger] s[k]) by {
        assert(t[k] == s[k]);
    }
    if i < j {
        assert(trim_white(s)[0] == t[i]);
        assert(trim_white(s).last() == s[j - 1]);
    }
    (i, j)
}

proof fn lemma_trim_end_white(s: Seq<char>) -> (j: int)
    ensures
        0 <= j <= s.len(),
        trim_end_white(s) == s.take(j),
        forall|k: int| j <= k < s.len() ==> is_white_space(#[trigger] s[k]),
        j > 0 ==> !is_white_space(s[j - 1]),
    decreases s.len(),
{
    if s.len() > 0 && is_white_space(s.last()) {
        let j = lemma_trim_end_white(s.drop_last());
        assert(s.drop_last().take(j) =~= s.take(j));
        assert forall|k: int| j <= k < s.len() implies is_white_space(#[trigger] s[k]) by {
            if k < s.len() - 1 {
                assert(s.drop_last()[k] == s[k]);
            }
        }
        if j > 0 {
            assert(s.drop_last()[j - 1] == s[j - 1]);
        }
        j
    } else {
        assert(s.take(s.len() as int) =~= s);
        s.len() as int
    }
}

proof fn lemma_trim_start_white(s: Seq<char>) -> (i: int)
    ensures
        0 <= i <= s.len(),
        trim_start_white(s) == s.subrange(i, s.len() as int),
        forall|k: int| 0 <= k < i ==> is_white_space(#[trigger] s[k]),
        i < s.len() ==> !is_white_space(s[i]),
    decreases s.len(),
{
    if s.len() > 0 && is_white_space(s[0]) {
        let i = lemma_trim_start_white(s.drop_first());
        assert(s.drop_first().subrange(i, s.len() - 1) =~= s.subrange(i + 1, s.len() as int));
        assert forall|k: int| 0 <= k < i + 1 implies is_white_space(#[trigger] s[k]) by {
            if k > 0 {
                assert(s.drop_first()[k - 1] == s[k]);
            }
        }
        if i + 1 < s.len() {
            assert(s.drop_first()[i] == s[i + 1]);
        }
        i + 1
    } else {
        assert(s.subrange(0, s.len() as int) =~= s);
        0
    }
}

/// `s` without its commas.
pub open spec fn without_commas(s: Seq<char>) -> Seq<char>
    decreases s.len(),
{
    if s.len() == 0 {
        s
    } else if s.last() == ',' {
        without_commas(s.drop_last())
    } else {
        without_commas(s.drop_last()).push(s.last())
    }
}

proof fn lemma_without_commas_add(a: Seq<char>, b: Seq<char>)
    ensures
        without_commas(a + b) == without_commas(a) + without_commas(b),
    decreases b.len(),
{
    if b.len() == 0 {
        assert(a + b =~= a);
        assert(without_commas(a) + without_commas(b) =~= without_commas(a));
    } else {
        assert((a + b).drop_last() =~= a + b.drop_last());
        lemma_without_commas_add(a, b.drop_last());
        assert(without_commas(a) + without_commas(b.drop_last()).push(b.last()) =~= (without_commas(a)
            + without_commas(b.drop_last())).push(b.last()));
    }
}

proof fn lemma_without_commas_none(s: Seq<char>)
    requires
        !s.contains(','),
    ensures
        without_commas(s) == s,
    decreases s.len(),
{
    if s.len() > 0 {
        assert(s[s.len() - 1] == s.last());
        assert(!s.drop_last().contains(',')) by {
            if s.drop_last().contains(',') {
                let k = choose|k: int| 0 <= k < s.drop_last().len() && s.drop_last()[k] == ',';
                assert(s[k] == ',');
            }
        }
        lemma_without_commas_none(s.drop_last());
        assert(s.drop_last().push(s.last()) =~= s);
    }
}

/// Grouping digits by threes only adds commas: without them it is the
/// digits again; it has one comma for each full three digits before the
/// last three, and a character is a comma exactly where a multiple of
/// four characters end there, counted from the end.
pub proof fn law_group_thousands(d: Seq<char>)
    requires
        !d.contains(','),
    ensures
        without_commas(group_thousands(d)) == d,
        d.len() > 0 ==> group_thousands(d).len() == d.len() + (d.len() - 1) / 3,
        forall|p: int|
            0 <= p < group_thousands(d).len() ==> (#[trigger] group_thousands(d)[p] == ',' <==> (
            group_thousands(d).len() - p) % 4 == 0),
    decreases d.len(),
{
    let g = group_thousands(d);
    if d.len() <= 3 {
        lemma_without_commas_none(d);
        assert forall|p: int| 0 <= p < g.len() implies (#[trigger] g[p] == ',' <==> (g.len() - p) % 4
            == 0) by {
            assert(g[p] == d[p]);
        }
    } else {
        let a = d.take(d.len() - 3);
        let b = d.skip(d.len() - 3);
        assert(!a.contains(',')) by {
            if a.contains(',') {
                let k = choose|k: int| 0 <= k < a.len() && a[k] == ',';
                assert(d[k] == ',');
            }
        }
        assert(!b.contains(',')) by {
            if b.contains(',') {
                let k = choose|k: int| 0 <= k < b.len() && b[k] == ',';
                assert(d[d.len() - 3 + k] == ',');
            }
        }
        law_group_thousands(a);
        let ga = group_thousands(a);
        reveal_strlit(",");
        assert(g == ga + ","@ + b);
        lemma_without_commas_add(ga + ","@, b);
        lemma_without_commas_add(ga, ","@);
        assert(without_commas(","@) =~= Seq::<char>::empty()) by {
            assert(","@.len() == 1);
            assert(","@.last() == ',');
            assert(","@.drop_last() =~= Seq::<char>::empty());
            assert(without_commas(Seq::<char>::empty()) == Seq::<char>::empty());
        }
        lemma_without_commas_none(b);
        assert(a + b =~= d);
        assert(ga + Seq::<char>::empty() =~= ga);
        assert forall|p: int| 0 <= p < g.len() implies (#[trigger] g[p] == ',' <==> (g.len() - p) % 4
            == 0) by {
            if p < ga.len() {
                assert(g[p] == ga[p]);
                assert(ga[p] == ',' <==> (ga.len() - p) % 4 == 0);
            } else if p == ga.len() {
            } else {
                assert(g[p] == b[p - ga.len() - 1]);
            }
        }
    }
}

/// The error that a reply stands for, by status: 401 reports the body's
/// `message` (or, where there is no `message`, its `error`), else
/// `unauthorized`, with a hint to log in again; 502 and 503 report the
/// service unavailable with the body's `message`; other failures (400 and
/// above) report the message (else `request failed`) with the status; below
/// 400 only an `error` string is an error.
pub proof fn law_reply_messages(status: u16, v: Json)
    ensures
        ({
            let found = match json_get(v, "message"@) {
                Some(m) => json_str(Some(m)),
                None => json_str(json_get(v, "error"@)),
            };
            &&& status == 401 ==> reply_error(status, v) == Some(
                match found {
                    Some(t) => t,
                    None => "unauthorized"@,
                } + "\nHint: your API key may have been revoked. Run `cantrip login` to re-authenticate."@,
            )
            &&& (status == 502 || status == 503) ==> reply_error(status, v) == Some(
                "Cantrip API unavailable: "@ + match json_str(json_get(v, "message"@)) {
                    Some(t) => t,
                    None => "service unavailable"@,
                } + "\nHint: check https://status.cantrip.ai or try again shortly"@,
            )
            &&& (status >= 400 && status != 401 && status != 502 && status != 503) ==> (
            reply_error(status, v) matches Some(e) && (match found {
                Some(t) => t,
                None => "request failed"@,
            } + " (HTTP "@ + decimal(status as nat) + " "@).is_prefix_of(e) && e.last() == ')')
            &&& status < 400 ==> reply_error(status, v) == json_str(json_get(v, "error"@))
        }),
{
    reveal_strlit(")");
    if status >= 400 && status != 401 && status != 502 && status != 503 {
        let m = match message_or_error(v) {
            Some(t) => t,
            None => "request failed"@,
        };
        let e = reply_error(status, v)->0;
        assert(e == m + " (HTTP "@ + status_display(status) + ")"@);
        assert(e.last() == ')');
        assert((m + " (HTTP "@ + decimal(status as nat) + " "@).is_prefix_of(e)) by {
            let pre = m + " (HTTP "@ + decimal(status as nat) + " "@;
            assert(e =~= pre + (or_else(canonical_reason(status), "<unknown status code>"@) + ")"@));
        }
    }
}

/// How a login attempt ends: status 200 accepts the key, with the team that
/// the body names (else `unknown`); 401 rejects it; any other status fails
/// with the body's `error` (else `unexpected status` and the status).
pub proof fn law_login_outcomes(r: LoginReply, status: u16, body: Option<Json>)
    requires
        is_login_reply(r, status, body),
    ensures
        status == 200 <==> r is Accepted,
        status == 401 <==> r is Rejected,
        r matches LoginReply::Accepted { team } ==> team@ == match body {
            Some(v) => match json_str(json_get(v, "team"@)) {
                Some(t) => t,
                None => "unknown"@,
            },
            None => "unknown"@,
        },
        r matches LoginReply::Failed { message } ==> match body {
            Some(v) => match json_str(json_get(v, "error"@)) {
                Some(t) => message@ == t,
                None => ("unexpected status "@ + decimal(status as nat) + " "@).is_prefix_of(
                    message@,
                ),
            },
            None => ("unexpected status "@ + decimal(status as nat) + " "@).is_prefix_of(message@),
        },
{
    if let LoginReply::Failed { message } = r {
        let fallback = "unexpected status "@ + status_display(status);
        let pre = "unexpected status "@ + decimal(status as nat) + " "@;
        assert(fallback =~= pre + or_else(canonical_reason(status), "<unknown status code>"@));
    }
}

proof fn lemma_human_members_prefix(members: Seq<(String, Json)>, pad: Seq<char>, j: int)
    requires
        0 <= j <= members.len(),
    ensures
        human_members(members.take(j), pad).is_prefix_of(human_members(members, pad)),
    decreases members.len(),
{
    if j == members.len() {
        assert(members.take(j) =~= members);
    } else {
        assert(members.drop_last().take(j) =~= members.take(j));
        lemma_human_members_prefix(members.drop_last(), pad, j);
    }
}

/// In the human rendering of an object, member `i` comes after those before
/// it: a line `key: value` with the value's scalar text, or, for an object
/// or array, a line `key:` and the value rendered two spaces deeper.
pub proof fn law_human_object_members(members: Seq<(String, Json)>, pad: Seq<char>, i: int)
    requires
        0 <= i < members.len(),
    ensures
        (human_members(members.take(i), pad) + if members[i].1 is Object || members[i].1 is Array {
            pad + members[i].0@ + ":\n"@ + human(members[i].1, pad + "  "@)
        } else {
            pad + members[i].0@ + ": "@ + scalar_text(members[i].1) + "\n"@
        }).is_prefix_of(human_members(members, pad)),
{
    lemma_human_members_prefix(members, pad, i + 1);
    let t = members.take(i + 1);
    assert(t.drop_last() =~= members.take(i));
    assert(t.last() == members[i]);
    assert(human_members(t, pad) == human_members(members.take(i), pad) + human_member(
        members[i],
        pad,
    ));
}

/// A scalar is written as its bare text where it is a string, as `null`
/// for null, and as its compact JSON text otherwise; a value that is not an
/// object or array takes one line.
pub proof fn law_scalar_text(v: Json, pad: Seq<char>)
    ensures
        v matches Json::Str(s) ==> scalar_text(v) == s@,
        v is Null ==> scalar_text(v) == "null"@,
        (v is Bool || v is Number || v is Array || v is Object) ==> scalar_text(v) == compact_json(v),
        !(v is Object || v is Array) ==> human(v, pad) == pad + scalar_text(v) + "\n"@,
{
}

proof fn lemma_markdown_members_prefix(members: Seq<(String, Json)>, j: int)
    requires
        0 <= j <= members.len(),
    ensures
        markdown_members(members.take(j)).is_prefix_of(markdown_members(members)),
    decreases members.len(),
{
    if j == members.len() {
        assert(members.take(j) =~= members);
    } else {
        assert(members.drop_last().take(j) =~= members.take(j));
        lemma_markdown_members_prefix(members.drop_last(), j);
    }
}

proof fn lemma_markdown_list_prefix(items: Seq<Json>, j: int)
    requires
        0 <= j <= items.len(),
    ensures
        markdown_list(items.take(j)).is_prefix_of(markdown_list(items)),
    decreases items.len(),
{
    if j == items.len() {
        assert(items.take(j) =~= items);
    } else {
        assert(items.drop_last().take(j) =~= items.take(j));
        lemma_markdown_list_prefix(items.drop_last(), j);
    }
}

/// In a Markdown bullet list, item `i` is the line `- ` and its scalar text,
/// after the items before it.
pub proof fn law_markdown_bullets(items: Seq<Json>, i: int)
    requires
        0 <= i < items.len(),
    ensures
        (markdown_list(items.take(i)) + "- "@ + scalar_text(items[i]) + "\n"@).is_prefix_of(
            markdown_list(items),
        ),
{
    lemma_markdown_list_prefix(items, i + 1);
    let t = items.take(i + 1);
    assert(t.drop_last() =~= items.take(i));
    assert(t.last() == items[i]);
}

/// In the Markdown rendering of an object, member `i` comes after those
/// before it: an object under a `## key` heading, rendered in turn; an array
/// under a `## key` heading as a bullet list and a blank line; any other
/// value as `**key**: value` and a blank line.
pub proof fn law_markdown_members(members: Seq<(String, Json)>, i: int)
    requires
        0 <= i < members.len(),
    ensures
        (markdown_members(members.take(i)) + match members[i].1 {
            Json::Object(_) => "## "@ + members[i].0@ + "\n\n"@ + markdown(members[i].1),
            Json::Array(items) => "## "@ + members[i].0@ + "\n\n"@ + markdown_list(items@) + "\n"@,
            _ => "**"@ + members[i].0@ + "**: "@ + scalar_text(members[i].1) + "\n\n"@,
        }).is_prefix_of(markdown_members(members)),
{
    lemma_markdown_members_prefix(members, i + 1);
    let t = members.take(i + 1);
    assert(t.drop_last() =~= members.take(i));
    assert(t.last() == members[i]);
    assert(markdown_members(t) == markdown_members(members.take(i)) + markdown_member(members[i]));
}

/// Of the fields that set `k`, the last one wins: where field `i` splits at
/// its first `=` into `k` and `v` and no later field sets `k`, the flag `k`
/// is `v`.
pub proof fn law_last_field_wins(
    m: FlagMap,
    fields: Seq<String>,
    i: int,
    k: Seq<char>,
    v: Seq<char>,
)
    requires
        0 <= i < fields.len(),
        split_once_char(fields[i]@, '=') == Some((k, v)),
        forall|j: int|
            i < j < fields.len() ==> !(#[trigger] split_once_char(fields[j]@, '=') matches Some(
                (k2, _),
            ) && k2 == k),
    ensures
        flag_value(with_fields(m, fields), k) == Some(v),
    decreases fields.len(),
{
    let n = fields.len();
    assert(fields.last() == fields[n - 1]);
    if i < n - 1 {
        let rest = fields.drop_last();
        assert forall|j: int|
            i < j < rest.len() implies !(#[trigger] split_once_char(rest[j]@, '=') matches Some(
            (k2, _),
        ) && k2 == k) by {
            assert(rest[j] == fields[j]);
        }
        assert(rest[i] == fields[i]);
        law_last_field_wins(m, rest, i, k, v);
        assert(!(split_once_char(fields[n - 1]@, '=') matches Some((k2, _)) && k2 == k));
    }
}

/// The number that the digits `s` stand for in base `b`.
pub open spec fn base_value(s: Seq<char>, b: nat) -> nat
    decreases s.len(),
{
    if s.len() == 0 {
        0
    } else {
        base_value(s.drop_last(), b) * b + ((s.last() as int) - 48) as nat
    }
}

/// `radix_digits(n, b)` for a base up to ten is the numeral of `n` in base
/// `b`: digits below `b`, no leading zero, standing for `n`.
pub proof fn law_radix_numeral(n: nat, b: nat)
    requires
        2 <= b <= 10,
    ensures
        radix_digits(n, b).len() > 0,
        forall|j: int|
            0 <= j < radix_digits(n, b).len() ==> '0' <= #[trigger] radix_digits(n, b)[j] && (
            radix_digits(n, b)[j] as int) < 48 + b,
        base_value(radix_digits(n, b), b) == n,
        n > 0 ==> radix_digits(n, b)[0] != '0',
    decreases n,
{
    if n >= b {
        assert(n / b < n) by (nonlinear_arith)
            requires
                b >= 2,
                n >= b,
        ;
        assert(n / b > 0) by (nonlinear_arith)
            requires
                b >= 2,
                n >= b,
        ;
        law_radix_numeral(n / b, b);
        let s = radix_digits(n / b, b);
        let d = digit_char(n % b);
        assert(radix_digits(n, b) == s.push(d));
        assert(s.push(d).drop_last() =~= s);
        assert(n % b < b) by (nonlinear_arith)
            requires
                b >= 2,
        ;
        assert(d as int == 48 + n % b);
        assert(s.push(d)[0] == s[0]);
        assert(s.push(d).last() == d);
        assert(base_value(s.push(d), b) == base_value(s, b) * b + ((d as int) - 48) as nat);
        assert((n / b) * b + n % b == n) by (nonlinear_arith)
            requires
                b >= 2,
        ;
    } else {
        assert(digit_char(n) as int == 48 + n);
        assert(seq![digit_char(n)].drop_last() =~= Seq::<char>::empty());
        assert(base_value(Seq::<char>::empty(), b) == 0);
        assert(seq![digit_char(n)].last() == digit_char(n));
    }
}

/// A credential file is warned about exactly where its permission bits are
/// not 0600; the warning gives the bits as an octal numeral and the command
/// that fixes them for `path`.
pub proof fn law_permission_warning(mode: u32, path: Seq<char>)
    ensures
        permission_warning_text(mode, path) is Some <==> (mode & 0o777u32) != 0o600u32,
        permission_warning_text(mode, path) matches Some(t) ==> exists|o: Seq<char>|
            #![trigger base_value(o, 8)]
            {
                &&& t == "Warning: credential file has insecure permissions ("@ + o
                    + "). Run: chmod 600 "@ + path
                &&& o.len() > 0
                &&& forall|j: int| 0 <= j < o.len() ==> '0' <= #[trigger] o[j] && (o[j] as int) < 56
                &&& base_value(o, 8) == (mode & 0o777u32)
                &&& (o.len() > 1 ==> o[0] != '0')
            },
{
    let bits = mode & 0o777u32;
    if bits != 0o600u32 {
        law_radix_numeral(bits as nat, 8);
        let o = radix_digits(bits as nat, 8);
        if o.len() > 1 {
            assert(bits as nat >= 8) by {
                if (bits as nat) < 8 {
                    assert(o == seq![digit_char(bits as nat)]);
                }
            }
        }
        assert(base_value(o, 8) == bits);
    }
}

} // verus!
