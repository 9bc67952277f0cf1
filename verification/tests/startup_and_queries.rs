use inventory::config::{
    chosen_collection, chosen_db_folder, chosen_report_path, configured_db_path,
    db_path_candidate, mongodb_status, require_absolute_folder, write_db_path_config, AppConfig,
    MONGO_URI,
};
use inventory::query::{entry_query, names_in_filter, part_names_to_find, split_text, DataEntryFilter};
use inventory::server::{
    first_startup_step, mongod_arguments, next_startup_step, parse_port_process, parse_u32,
    startup_timeout_message, ChildState, PortProcess, StartupEvent,
    StartupStep,
};
use mongodb::bson::oid::ObjectId;

fn finish_error(step: StartupStep) -> String {
    match step {
        StartupStep::Finish(Err(m)) => m,
        _ => panic!("expected a failure"),
    }
}

#[test]
fn startup_begins_at_the_port() {
    assert!(matches!(first_startup_step(), StartupStep::CheckPort));
    assert!(matches!(next_startup_step(StartupEvent::PortOpen(true)), StartupStep::CheckOwnedServer));
    assert!(matches!(next_startup_step(StartupEvent::PortOpen(false)), StartupStep::CheckChild));
}

#[test]
fn an_open_port_is_fine_only_for_our_server() {
    assert!(matches!(
        next_startup_step(StartupEvent::OwnedServerRunning(true)),
        StartupStep::Finish(Ok(()))
    ));
    assert!(matches!(
        next_startup_step(StartupEvent::OwnedServerRunning(false)),
        StartupStep::FindPortUser
    ));
    let user = PortProcess { pid: 4242, name: "mongod".into() };
    assert_eq!(
        finish_error(next_startup_step(StartupEvent::PortUser(Some(user)))),
        "Port 27017 is already in use by mongod (PID 4242)."
    );
    assert_eq!(
        finish_error(next_startup_step(StartupEvent::PortUser(None))),
        "Port 27017 is already in use."
    );
}

#[test]
fn our_server_is_waited_for_or_reported() {
    assert!(matches!(
        next_startup_step(StartupEvent::Child(ChildState::Running)),
        StartupStep::WaitUntilReady
    ));
    assert!(matches!(
        next_startup_step(StartupEvent::Child(ChildState::NotStarted)),
        StartupStep::LoadConfig
    ));
    assert_eq!(
        finish_error(next_startup_step(StartupEvent::Child(ChildState::Exited("exit code: 1".into())))),
        "MongoDB exited before it was ready: exit code: 1"
    );
    assert!(matches!(next_startup_step(StartupEvent::Launched), StartupStep::WaitUntilReady));
}

#[test]
fn a_server_is_launched_on_the_configured_folder() {
    let config = AppConfig { db_path: "  /data/db ".into() };
    match next_startup_step(StartupEvent::ConfigLoaded { config, is_absolute_dir: true }) {
        StartupStep::Launch { db_path } => assert_eq!(db_path, "/data/db"),
        _ => panic!("expected a launch"),
    }
    let config = AppConfig { db_path: "  /data/db ".into() };
    assert_eq!(
        finish_error(next_startup_step(StartupEvent::ConfigLoaded { config, is_absolute_dir: false })),
        "MongoDB database folder has not been configured"
    );
    let config = AppConfig::default();
    assert_eq!(
        finish_error(next_startup_step(StartupEvent::ConfigLoaded { config, is_absolute_dir: true })),
        "MongoDB database folder has not been configured"
    );
}

#[test]
fn server_arguments_and_messages() {
    assert_eq!(
        mongod_arguments("/d", "/d/mongod.log"),
        vec![
            "--dbpath",
            "/d",
            "--bind_ip",
            "127.0.0.1",
            "--port",
            "27017",
            "--logpath",
            "/d/mongod.log",
            "--logappend"
        ]
    );
    assert_eq!(
        startup_timeout_message(),
        "MongoDB did not start on 127.0.0.1:27017 before the timeout"
    );
}

#[test]
fn numbers_parse_like_std() {
    for s in ["", "+", "-", "0", "42", "+42", "-42", "007", "4294967295", "4294967296", "99999999999999999999999", "1a", " 1", "++1"] {
        assert_eq!(parse_u32(s), s.parse::<u32>().ok(), "{:?}", s);
    }
}

#[test]
fn port_processes_are_read_from_lookup_output() {
    let p = parse_port_process("  1234| mongod \r\n").unwrap();
    assert_eq!((p.pid, p.name.as_str()), (1234, "mongod"));
    let p = parse_port_process("9|a|b").unwrap();
    assert_eq!(p.name, "a|b");
    assert!(parse_port_process("nothing").is_none());
    assert!(parse_port_process("x|mongod").is_none());
    assert!(parse_port_process("").is_none());
}

#[test]
fn configured_folders_need_text_and_a_folder() {
    let config = AppConfig { db_path: " C:\\db ".into() };
    assert_eq!(db_path_candidate(&config).unwrap(), "C:\\db");
    assert_eq!(configured_db_path(&config, true).unwrap(), "C:\\db");
    assert!(configured_db_path(&config, false).is_none());
    let blank = AppConfig { db_path: "   ".into() };
    assert!(db_path_candidate(&blank).is_none());
    assert!(configured_db_path(&blank, true).is_none());
    assert_eq!(write_db_path_config("/x").db_path, "/x");
}

#[test]
fn status_reports_the_configuration() {
    let config = AppConfig { db_path: " /db ".into() };
    let s = mongodb_status("/home/u/.inventory/config.json".into(), config, true, false);
    assert!(s.configured);
    assert_eq!(s.db_path.as_deref(), Some("/db"));
    assert_eq!(s.saved_db_path, " /db ");
    assert!(!s.running);
    assert_eq!(s.connection_uri, MONGO_URI);
    assert_eq!(s.database, "inventory");
    let s = mongodb_status("c".into(), AppConfig { db_path: "/db".into() }, false, true);
    assert!(!s.configured);
    assert!(s.db_path.is_none());
    assert!(s.running);
}

#[test]
fn user_choices_must_not_be_blank() {
    assert_eq!(chosen_db_folder(" /x ").unwrap(), "/x");
    assert_eq!(chosen_db_folder(" ").unwrap_err(), "Choose a MongoDB database folder");
    assert!(require_absolute_folder(true).is_ok());
    assert_eq!(
        require_absolute_folder(false).unwrap_err(),
        "MongoDB database folder must be an absolute path"
    );
    assert_eq!(chosen_collection(" parts ").unwrap(), "parts");
    assert_eq!(chosen_collection("").unwrap_err(), "Choose a collection");
    assert_eq!(chosen_report_path(" r.pdf").unwrap(), "r.pdf");
    assert_eq!(chosen_report_path("\t").unwrap_err(), "Choose a file path");
}

#[test]
fn text_splits_like_std() {
    for s in ["", ",", "a", "a,b", ",a,,b,", " x , y "] {
        let std: Vec<String> = s.split(',').map(str::to_string).collect();
        assert_eq!(split_text(s, ','), std);
    }
}

#[test]
fn part_names_are_split_and_normalized() {
    let mut f = DataEntryFilter::default();
    assert_eq!(part_names_to_find(&f).unwrap(), None);
    f.part_name = Some(" brake pad,BOLT ".into());
    assert_eq!(
        part_names_to_find(&f).unwrap(),
        Some(vec!["Brake Pad".to_string(), "Bolt".to_string()])
    );
    f.all_parts = Some("true".into());
    assert_eq!(part_names_to_find(&f).unwrap(), None);
    f.all_parts = Some("false".into());
    f.part_name = Some("a,,b".into());
    assert_eq!(part_names_to_find(&f).unwrap_err(), "Name is required");
    f.part_name = Some("   ".into());
    assert_eq!(part_names_to_find(&f).unwrap(), None);
}

#[test]
fn name_lookups_use_in() {
    let d = names_in_filter(vec!["A".into(), "B".into()]);
    let names = d.get_document("name").unwrap().get_array("$in").unwrap();
    assert_eq!(names.len(), 2);
}

#[test]
fn queries_hold_the_given_conditions() {
    let mut f = DataEntryFilter::default();
    let q = entry_query(&f, None).unwrap();
    assert!(q.is_empty());
    assert!(entry_query(&f, Some(vec![])).is_none());
    f.start_date = Some("2024-01-01".into());
    f.end_date = Some("  ".into());
    f.load_number_end = Some("L9".into());
    f.inspector_name = Some("ann".into());
    let id = ObjectId::parse_str("65a1b2c3d4e5f60718293a4b").unwrap();
    let q = entry_query(&f, Some(vec![id.bytes()])).unwrap();
    let keys: Vec<&String> = q.keys().collect();
    assert_eq!(keys, vec!["part", "date", "lotNumber", "inspectorName"]);
    let date = q.get_document("date").unwrap();
    assert_eq!(date.get_str("$gte").unwrap(), "2024-01-01");
    assert!(date.get("$lte").is_none());
    let lot = q.get_document("lotNumber").unwrap();
    assert_eq!(lot.get_str("$lte").unwrap(), "L9");
    assert_eq!(lot.len(), 1);
    let who = q.get_document("inspectorName").unwrap();
    assert_eq!(who.get_str("$regex").unwrap(), "ann");
    assert_eq!(who.get_str("$options").unwrap(), "i");
    let ids = q.get_document("part").unwrap().get_array("$in").unwrap();
    assert_eq!(ids[0].as_object_id().unwrap(), id);
}

#[test]
fn present_but_blank_bounds_still_add_an_empty_range() {
    let mut f = DataEntryFilter::default();
    f.start_date = Some(" ".into());
    let q = entry_query(&f, None).unwrap();
    assert!(q.get_document("date").unwrap().is_empty());
}

#[test]
fn asking_for_all_parts_drops_the_part_condition() {
    let mut f = DataEntryFilter::default();
    f.part_name = Some("Bolt".into());
    f.all_parts = Some("true".into());
    f.end_date = Some("2024-12-31".into());
    assert_eq!(part_names_to_find(&f).unwrap(), None);
    let q = entry_query(&f, None).unwrap();
    assert!(q.get("part").is_none());
    assert_eq!(q.get_document("date").unwrap().get_str("$lte").unwrap(), "2024-12-31");
}
