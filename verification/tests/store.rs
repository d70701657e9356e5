use via::hub_db::{
    create_node_token, hash_token, node_token_from, register_with, Machine,
};
use via::model::{Event, Payload, Value};
use via::store::{
    ask_table, check_schema, check_stored, delete_event_table_row, embedded_to_string,
    ensure_tables, field, first_row, hub_tables, insert_event_table, insert_ignore,
    migration_lines, migration_plan, migration_step, next_stored, pair, parse_migration, require_field, row_to_map, rows_of,
    save_call, select_rows, set_where, Cell, RowReply, StoreNext, StoreRow, TableReply,
};

fn simple(text: &str) -> Cell {
    Cell::Simple(text.to_string())
}

#[test]
fn rows_are_inserted_unless_they_are_there() {
    let step = insert_ignore("meshes", &vec![pair("id", "1"), pair("name", "x")]);
    assert_eq!(step.call.name, "TINSERT");
    assert_eq!(step.call.args, vec!["meshes", "id", "1", "name", "x"]);
    assert_eq!(check_stored(&step, None), Ok(true));
    assert_eq!(check_stored(&step, Some("UNIQUE constraint")), Ok(false));
    assert_eq!(check_stored(&step, Some("disk full")), Err("disk full".to_string()));
}

#[test]
fn fields_are_set_and_rows_selected() {
    let step = set_where("nodes", &vec![pair("seen", "5")], "id", "n", true);
    assert_eq!(step.call.name, "TUPDATE");
    assert_eq!(
        step.call.args,
        vec!["nodes", "SET", "seen", "5", "WHERE", "id", "=", "n"]
    );
    assert_eq!(check_stored(&step, Some("unique")), Err("unique".to_string()));
    assert_eq!(
        select_rows("tokens", "hash", "h", true).args,
        vec!["*", "FROM", "tokens", "WHERE", "hash", "=", "h", "LIMIT", "1"]
    );
    assert_eq!(
        select_rows("nodes", "mesh", "m", false).args,
        vec!["*", "FROM", "nodes", "WHERE", "mesh", "=", "m"]
    );
    assert_eq!(save_call().name, "SAVE");
    assert_eq!(ask_table("nodes").args, vec!["nodes"]);
}

#[test]
fn cells_become_text() {
    assert_eq!(embedded_to_string(simple("a")).unwrap(), "a");
    assert_eq!(embedded_to_string(Cell::Int(-5)).unwrap(), "-5");
    assert_eq!(embedded_to_string(Cell::Bulk(b"b".to_vec())).unwrap(), "b");
    assert!(embedded_to_string(Cell::Bulk(vec![0xff])).is_err());
    assert_eq!(
        embedded_to_string(Cell::Other("Nil".to_string())).unwrap_err(),
        "unexpected Lux table field value: Nil"
    );
}

#[test]
fn rows_become_fields() {
    let row = row_to_map(RowReply::Cells(vec![
        simple("a"),
        Cell::Int(1),
        simple("b"),
        simple("2"),
        simple("a"),
        simple("3"),
        simple("left over"),
    ]))
    .unwrap();
    assert_eq!(row.fields.len(), 3);
    assert_eq!(field(&row, "a"), Some("3"));
    assert_eq!(field(&row, "b"), Some("2"));
    assert_eq!(field(&row, "c"), None);
    assert!(require_field(&row, "b", "2").is_ok());
    assert_eq!(require_field(&row, "b", "3").unwrap_err(), "invalid hub token");
    assert_eq!(require_field(&row, "c", "3").unwrap_err(), "invalid hub token");
    assert_eq!(
        row_to_map(RowReply::Other("Int(3)".to_string())).unwrap_err(),
        "unexpected Lux table row: Int(3)"
    );
}

#[test]
fn answers_become_rows() {
    let rows = rows_of(TableReply::Rows(vec![
        RowReply::Cells(vec![simple("id"), simple("1")]),
        RowReply::Cells(vec![simple("id"), simple("2")]),
    ]))
    .unwrap();
    assert_eq!(rows.len(), 2);
    assert_eq!(field(&first_row(rows).unwrap(), "id"), Some("1"));
    assert!(first_row(Vec::<StoreRow>::new()).is_none());
    assert_eq!(
        rows_of(TableReply::Rows(vec![
            RowReply::Cells(vec![]),
            RowReply::Other("x".to_string()),
        ]))
        .unwrap_err(),
        "unexpected Lux table row: x"
    );
    assert_eq!(
        rows_of(TableReply::Other("Nil".to_string())).unwrap_err(),
        "unexpected Lux table response: Nil"
    );
}

#[test]
fn migrations_hold_one_command_per_line() {
    let raw = "# tables\n\n [\"TCREATE\", \"meshes\"] \r\n-- old\n[\"SAVE\"]";
    assert_eq!(
        migration_lines(raw),
        vec!["[\"TCREATE\", \"meshes\"]", "[\"SAVE\"]"]
    );
    let commands = parse_migration(raw).unwrap();
    assert_eq!(commands, vec![vec!["TCREATE", "meshes"], vec!["SAVE"]]);
    let step = migration_step(commands[0].clone()).unwrap();
    assert_eq!(step.call.name, "TCREATE");
    assert_eq!(step.call.args, vec!["meshes"]);
    assert_eq!(check_stored(&step, Some("table already EXISTS")), Ok(false));
    assert_eq!(migration_step(vec![]).unwrap_err(), "empty migration command");
    assert!(parse_migration("[1]").is_err());
    assert!(parse_migration("not json").is_err());
}

#[test]
fn missing_tables_are_named() {
    assert_eq!(
        hub_tables(),
        vec!["meshes", "nodes", "tokens", "sessions", "cmds", "events", "audit"]
    );
    assert!(check_schema(&vec![]).is_ok());
    assert_eq!(
        check_schema(&vec!["cmds".to_string(), "audit".to_string()]).unwrap_err(),
        "hub schema is missing tables: cmds, audit; run `via hub migrate` or start with `via hub start --migrate`"
    );
}

#[test]
fn events_have_a_table() {
    let event = Event {
        id: "e".to_string(),
        kind: "k".to_string(),
        payload: Payload::Plain(Value::Null),
        created_at: 7,
    };
    let step = insert_event_table(&event, "null");
    assert_eq!(
        step.call.args,
        vec!["via_events", "event_id", "e", "kind", "k", "created_at", "7", "payload", "null"]
    );
    assert_eq!(check_stored(&step, Some("unique")), Ok(false));
    assert_eq!(check_stored(&step, None), Ok(false));
    let step = delete_event_table_row("e");
    assert_eq!(
        step.call.args,
        vec!["FROM", "via_events", "WHERE", "event_id", "=", "e"]
    );
    assert_eq!(check_stored(&step, Some("row Not Found")), Ok(false));
    assert_eq!(check_stored(&ensure_tables(), Some("exists")), Ok(false));
}

#[test]
fn drawn_node_tokens_are_kept_hashed() {
    let (token, step) = node_token_from(Ok("secret".to_string()), "m", "rig", 5).unwrap();
    assert_eq!(token, "secret");
    assert_eq!(step.call.name, "TINSERT");
    assert!(step.call.args.contains(&hash_token("secret")));
    assert!(!step.call.args.contains(&"secret".to_string()));
    let refused = node_token_from(Err("no bytes".to_string()), "m", "rig", 5);
    assert_eq!(refused.err(), Some("no bytes".to_string()));
}

#[test]
fn registered_nodes_get_the_token_that_was_drawn() {
    let machine = Machine {
        os: "linux".to_string(),
        arch: "x86_64".to_string(),
        version: "0.1.0".to_string(),
    };
    let drawn = Ok("secret".to_string());
    let plan = register_with(vec![], drawn, "m", "n", "rig", &machine, 5);
    assert_eq!(plan.token, Ok("secret".to_string()));
    assert_eq!(plan.steps.len(), 3);
    assert!(plan.steps[2].call.args.contains(&hash_token("secret")));
    let plan = register_with(vec![], Err("none".to_string()), "m", "n", "rig", &machine, 5);
    assert_eq!(plan.token, Err("none".to_string()));
    assert_eq!(plan.steps.len(), 2);
    let (first, step) = create_node_token("m", "rig", 5).unwrap();
    let (second, _) = create_node_token("m", "rig", 5).unwrap();
    assert_ne!(first, second);
    assert!(step.call.args.contains(&hash_token(&first)));
}

#[test]
fn store_steps_stop_at_the_first_that_fails() {
    let steps = vec![
        insert_ignore("nodes", &vec![pair("id", "n")]),
        set_where("nodes", &vec![pair("seen", "5")], "id", "n", false),
        set_where("nodes", &vec![pair("seen", "6")], "id", "n", true),
    ];
    let fail = |text: &str| Some(text.to_string());
    assert!(matches!(next_stored(&steps, &vec![]), StoreNext::Run(0)));
    assert!(matches!(next_stored(&steps, &vec![None]), StoreNext::Save));
    assert!(matches!(next_stored(&steps, &vec![None, None]), StoreNext::Run(1)));
    assert!(matches!(next_stored(&steps, &vec![fail("UNIQUE")]), StoreNext::Run(1)));
    assert!(matches!(next_stored(&steps, &vec![None, fail("full")]), StoreNext::Failed(said)
        if said == "full"));
    assert!(matches!(next_stored(&steps, &vec![None, None, fail("no")]), StoreNext::Failed(said)
        if said == "no"));
    assert!(matches!(next_stored(&steps, &vec![None, None, None]), StoreNext::Run(2)));
    assert!(matches!(next_stored(&steps, &vec![None, None, None, None]), StoreNext::Save));
    let all = vec![None, None, None, None, None];
    assert!(matches!(next_stored(&steps, &all), StoreNext::Finished));
}

#[test]
fn migrations_go_up_to_an_empty_command() {
    let commands =
        vec![vec!["TCREATE".to_string(), "nodes".to_string()], vec![], vec!["X".to_string()]];
    let plan = migration_plan(&commands);
    assert_eq!(plan.steps.len(), 1);
    assert_eq!(plan.steps[0].call.name, "TCREATE");
    assert_eq!(plan.failed.as_deref(), Some("empty migration command"));
    assert!(migration_plan(&vec![]).failed.is_none());
}
