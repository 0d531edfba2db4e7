use cantrip::{
    build_entity_request, build_request, ApikeyAction, Cli, Command, EntityAction, Flags,
    MeterAction, NextMode, OutputFormat, ProjectAction, ReviewAction, UserAction,
};

fn cli(command: Command) -> Cli {
    Cli { format: OutputFormat::Json, project: None, team: None, verbose: false, command }
}

fn s(x: &str) -> String {
    x.to_string()
}

fn flag(f: &Flags, k: &str) -> Option<String> {
    f.get(k)
}

#[test]
fn init_sets_name_description_and_brief() {
    let c = cli(Command::Init { name: s("Acme"), description: s("Widgets"), brief: Some(s("b.md")) });
    let (cmd, args, flags) = build_request(&c, None);
    assert_eq!(cmd, "init");
    assert!(args.is_empty());
    assert_eq!(flag(&flags, "name"), Some(s("Acme")));
    assert_eq!(flag(&flags, "description"), Some(s("Widgets")));
    assert_eq!(flag(&flags, "brief"), Some(s("b.md")));
    assert_eq!(flags.len(), 3);
}

#[test]
fn project_flag_comes_from_option_or_default() {
    let mut c = cli(Command::Whoami);
    let (_, _, flags) = build_request(&c, Some(s("stored")));
    assert_eq!(flag(&flags, "project"), Some(s("stored")));
    c.project = Some(s("explicit"));
    let (_, _, flags) = build_request(&c, Some(s("stored")));
    assert_eq!(flag(&flags, "project"), Some(s("explicit")));
    let (_, _, flags2) = build_request(&c, None);
    assert_eq!(flag(&flags2, "project"), Some(s("explicit")));
    c.project = None;
    let (_, _, flags) = build_request(&c, None);
    assert_eq!(flag(&flags, "project"), None);
    assert_eq!(flags.len(), 0);
}

#[test]
fn team_flag_comes_from_option() {
    let mut c = cli(Command::Whoami);
    c.team = Some(s("core"));
    let (cmd, args, flags) = build_request(&c, None);
    assert_eq!(cmd, "whoami");
    assert!(args.is_empty());
    assert_eq!(flag(&flags, "team"), Some(s("core")));
}

#[test]
fn user_create_team_replaces_global_team() {
    let mut c = cli(Command::User {
        action: UserAction::Create {
            email: s("a@b.c"),
            name: s("Ann"),
            team: s("annteam"),
            team_display: Some(s("Ann's team")),
        },
    });
    c.team = Some(s("global"));
    let (cmd, args, flags) = build_request(&c, None);
    assert_eq!(cmd, "user");
    assert_eq!(args, vec![s("create")]);
    assert_eq!(flag(&flags, "team"), Some(s("annteam")));
    assert_eq!(flag(&flags, "email"), Some(s("a@b.c")));
    assert_eq!(flag(&flags, "name"), Some(s("Ann")));
    assert_eq!(flag(&flags, "team-display"), Some(s("Ann's team")));
}

#[test]
fn snapshot_args_in_order() {
    let c = cli(Command::Snapshot { entity_type: Some(s("icps")), id: Some(s("7")) });
    let (cmd, args, _) = build_request(&c, None);
    assert_eq!(cmd, "snapshot");
    assert_eq!(args, vec![s("icps"), s("7")]);
    let c = cli(Command::Snapshot { entity_type: None, id: Some(s("7")) });
    let (_, args, _) = build_request(&c, None);
    assert_eq!(args, vec![s("7")]);
}

#[test]
fn review_commands() {
    let c = cli(Command::Review { action: None, id: Some(s("x")), resolution: Some(s("r")) });
    let (cmd, args, flags) = build_request(&c, None);
    assert_eq!(cmd, "review");
    assert!(args.is_empty());
    assert_eq!(flags.len(), 0);
    let c = cli(Command::Review {
        action: Some(ReviewAction::Resolve),
        id: Some(s("e1")),
        resolution: Some(s("done")),
    });
    let (cmd, args, flags) = build_request(&c, None);
    assert_eq!(cmd, "review resolve");
    assert_eq!(args, vec![s("e1")]);
    assert_eq!(flag(&flags, "resolution"), Some(s("done")));
    let c = cli(Command::Review {
        action: Some(ReviewAction::Accept),
        id: Some(s("e2")),
        resolution: Some(s("ignored")),
    });
    let (cmd, args, flags) = build_request(&c, None);
    assert_eq!(cmd, "review accept");
    assert_eq!(args, vec![s("e2")]);
    assert_eq!(flag(&flags, "resolution"), None);
    let c = cli(Command::Review { action: Some(ReviewAction::Reject), id: None, resolution: None });
    assert_eq!(build_request(&c, None).0, "review reject");
    let c = cli(Command::Review { action: Some(ReviewAction::Dismiss), id: None, resolution: None });
    assert_eq!(build_request(&c, None).0, "review dismiss");
}

#[test]
fn review_action_words() {
    assert_eq!(ReviewAction::Accept.to_string(), "accept");
    assert_eq!(ReviewAction::Reject.to_string(), "reject");
    assert_eq!(ReviewAction::Resolve.to_string(), "resolve");
    assert_eq!(ReviewAction::Dismiss.to_string(), "dismiss");
}

#[test]
fn next_modes() {
    let c = cli(Command::Next { mode: Some(NextMode::Prompt), id: Some(s("o1")) });
    let (cmd, args, _) = build_request(&c, None);
    assert_eq!(cmd, "next prompt");
    assert_eq!(args, vec![s("o1")]);
    let c = cli(Command::Next { mode: Some(NextMode::Run), id: None });
    let (cmd, args, _) = build_request(&c, None);
    assert_eq!(cmd, "next run");
    assert!(args.is_empty());
    let c = cli(Command::Next { mode: None, id: Some(s("o2")) });
    let (cmd, args, _) = build_request(&c, None);
    assert_eq!(cmd, "next");
    assert_eq!(args, vec![s("o2")]);
}

#[test]
fn history_filters_and_limit() {
    let c = cli(Command::History {
        event_type: Some(s("init")),
        entity: Some(s("icp")),
        since: Some(s("2026-01-01")),
        limit: 50,
    });
    let (cmd, args, flags) = build_request(&c, None);
    assert_eq!(cmd, "history");
    assert!(args.is_empty());
    assert_eq!(flag(&flags, "type"), Some(s("init")));
    assert_eq!(flag(&flags, "entity"), Some(s("icp")));
    assert_eq!(flag(&flags, "since"), Some(s("2026-01-01")));
    assert_eq!(flag(&flags, "limit"), Some(s("50")));
    let c = cli(Command::History { event_type: None, entity: None, since: None, limit: 1234567 });
    let (_, _, flags) = build_request(&c, None);
    assert_eq!(flag(&flags, "limit"), Some(s("1234567")));
    assert_eq!(flags.len(), 1);
}

#[test]
fn entity_commands_name_type_and_operation() {
    let kinds = [
        (Command::Icp { action: EntityAction::List }, "icp list"),
        (Command::PainPoint { action: EntityAction::List }, "pain-point list"),
        (Command::ValueProp { action: EntityAction::List }, "value-prop list"),
        (Command::Experiment { action: EntityAction::List }, "experiment list"),
        (Command::Channel { action: EntityAction::List }, "channel list"),
        (Command::Competitor { action: EntityAction::List }, "competitor list"),
        (Command::Contact { action: EntityAction::List }, "contact list"),
    ];
    for (command, expected) in kinds {
        let (cmd, args, _) = build_request(&cli(command), None);
        assert_eq!(cmd, expected);
        assert!(args.is_empty());
    }
    let (cmd, args, _) =
        build_request(&cli(Command::Contact { action: EntityAction::Show { id: s("c9") } }), None);
    assert_eq!(cmd, "contact show");
    assert_eq!(args, vec![s("c9")]);
}

#[test]
fn entity_add_fields_split_at_first_equals() {
    let c = cli(Command::Icp {
        action: EntityAction::Add {
            name: Some(s("Founders")),
            description: None,
            fields: vec![s("size=small"), s("note=a=b"), s("broken"), s("size=large"), s("=v")],
        },
    });
    let (cmd, args, flags) = build_request(&c, None);
    assert_eq!(cmd, "icp add");
    assert!(args.is_empty());
    assert_eq!(flag(&flags, "name"), Some(s("Founders")));
    assert_eq!(flag(&flags, "description"), None);
    assert_eq!(flag(&flags, "size"), Some(s("large")));
    assert_eq!(flag(&flags, "note"), Some(s("a=b")));
    assert_eq!(flag(&flags, ""), Some(s("v")));
    assert_eq!(flag(&flags, "broken"), None);
    assert_eq!(flags.len(), 4);
}

#[test]
fn entity_edit_field_may_override_project() {
    let mut c = cli(Command::Experiment {
        action: EntityAction::Edit {
            id: s("x1"),
            name: None,
            description: Some(s("d")),
            fields: vec![s("project=other")],
        },
    });
    c.project = Some(s("main"));
    let (cmd, args, flags) = build_request(&c, None);
    assert_eq!(cmd, "experiment edit");
    assert_eq!(args, vec![s("x1")]);
    assert_eq!(flag(&flags, "project"), Some(s("other")));
    assert_eq!(flag(&flags, "description"), Some(s("d")));
}

#[test]
fn entity_add_keeps_project_and_team_unless_a_field_sets_them() {
    let mut c = cli(Command::Contact {
        action: EntityAction::Add {
            name: Some(s("Ada")),
            description: None,
            fields: vec![s("role=cto"), s("projects=many"), s("teams")],
        },
    });
    c.team = Some(s("core"));
    let (_, _, flags) = build_request(&c, Some(s("stored")));
    assert_eq!(flag(&flags, "project"), Some(s("stored")));
    assert_eq!(flag(&flags, "team"), Some(s("core")));
    assert_eq!(flag(&flags, "role"), Some(s("cto")));
}

#[test]
fn entity_request_leaves_flags_in_place() {
    let mut flags = Flags::new();
    let action = EntityAction::Add { name: Some(s("n")), description: None, fields: vec![] };
    let (cmd, args, out) = build_entity_request("channel", &action, &mut flags);
    assert_eq!(cmd, "channel add");
    assert!(args.is_empty());
    assert_eq!(out.get("name"), Some(s("n")));
    assert_eq!(flags.get("name"), Some(s("n")));
}

#[test]
fn project_commands() {
    let (cmd, _, _) = build_request(&cli(Command::Project { action: ProjectAction::List }), None);
    assert_eq!(cmd, "project list");
    let c = cli(Command::Project {
        action: ProjectAction::Update { slug: Some(s("p")), name: Some(s("N")), description: None },
    });
    let (cmd, args, flags) = build_request(&c, None);
    assert_eq!(cmd, "project update");
    assert_eq!(args, vec![s("p")]);
    assert_eq!(flag(&flags, "name"), Some(s("N")));
    let c = cli(Command::Project { action: ProjectAction::Delete { slug: None } });
    let (cmd, args, _) = build_request(&c, None);
    assert_eq!(cmd, "project delete");
    assert!(args.is_empty());
}

#[test]
fn project_create_is_init() {
    let a = cli(Command::Project {
        action: ProjectAction::Create { name: s("A"), description: s("B"), brief: None },
    });
    let b = cli(Command::Init { name: s("A"), description: s("B"), brief: None });
    let (ca, aa, fa) = build_request(&a, Some(s("d")));
    let (cb, ab, fb) = build_request(&b, Some(s("d")));
    assert_eq!(ca, cb);
    assert_eq!(aa, ab);
    let mut pa = fa.pairs();
    let mut pb = fb.pairs();
    pa.sort();
    pb.sort();
    assert_eq!(pa, pb);
}

#[test]
fn apikey_create() {
    let c = cli(Command::Apikey { action: ApikeyAction::Create { user: None, name: s("default") } });
    let (cmd, args, flags) = build_request(&c, None);
    assert_eq!(cmd, "apikey");
    assert_eq!(args, vec![s("create")]);
    assert_eq!(flag(&flags, "name"), Some(s("default")));
    assert_eq!(flag(&flags, "user"), None);
}

#[test]
fn meter_defaults_to_balance() {
    let (cmd, args, _) = build_request(&cli(Command::Meter { action: None }), None);
    assert_eq!(cmd, "meter");
    assert_eq!(args, vec![s("balance")]);
    let (cmd, args, _) =
        build_request(&cli(Command::Meter { action: Some(MeterAction::Balance) }), None);
    assert_eq!(cmd, "meter");
    assert_eq!(args, vec![s("balance")]);
    let (_, args, _) = build_request(&cli(Command::Meter { action: Some(MeterAction::Tiers) }), None);
    assert_eq!(args, vec![s("tiers")]);
}

#[test]
fn meter_history_limit() {
    let (cmd, args, flags) =
        build_request(&cli(Command::Meter { action: Some(MeterAction::History { limit: 5 }) }), None);
    assert_eq!(cmd, "meter");
    assert_eq!(args, vec![s("history")]);
    assert_eq!(flag(&flags, "limit"), Some(s("5")));
    let (_, _, flags) =
        build_request(&cli(Command::Meter { action: Some(MeterAction::History { limit: 0 }) }), None);
    assert_eq!(flag(&flags, "limit"), Some(s("0")));
    let (_, _, flags) =
        build_request(&cli(Command::Meter { action: Some(MeterAction::History { limit: 20 }) }), None);
    assert_eq!(flag(&flags, "limit"), Some(s("20")));
}

#[test]
fn internal_commands() {
    let (cmd, args, _) = build_request(&cli(Command::Tick), None);
    assert_eq!(cmd, "_tick");
    assert!(args.is_empty());
    let (cmd, args, _) = build_request(&cli(Command::Loop { id: s("L3") }), None);
    assert_eq!(cmd, "_loop");
    assert_eq!(args, vec![s("L3")]);
}

#[test]
fn flags_insert_replaces() {
    let mut f = Flags::new();
    f.insert(s("a"), s("1"));
    f.insert(s("b"), s("2"));
    f.insert(s("a"), s("3"));
    assert_eq!(f.len(), 2);
    assert_eq!(f.get("a"), Some(s("3")));
    assert_eq!(f.get("b"), Some(s("2")));
    assert_eq!(f.get("c"), None);
    let g = f.clone();
    assert_eq!(g.get("a"), Some(s("3")));
}
