use via::docker::deploy_local_image;
use via::model::Node;
use via::process::{next_run, next_step, NextStep, Ran, Run};
use via::release::download_run;
use via::ssh::copy_dir;

fn well() -> Ran {
    Ran::Ended { success: true, status: "exit status: 0".to_string() }
}

fn badly() -> Ran {
    Ran::Ended { success: false, status: "exit status: 1".to_string() }
}

fn node() -> Node {
    Node {
        id: "n".to_string(),
        slug: "rig".to_string(),
        display_name: "rig".to_string(),
        addresses: vec![],
        daemon_addr: String::new(),
        iroh_addr: None,
        public: false,
        created_at: 1,
        last_seen_at: Some(1),
    }
}

#[test]
fn containers_start_only_where_docker_is_there() {
    let steps =
        deploy_local_image(&node(), "redis", "db", "via-db", None, &vec![], &vec![], 5).steps;
    assert_eq!(steps.len(), 3);
    assert!(matches!(next_step(&steps, &vec![]), NextStep::Run(0)));
    assert!(matches!(next_step(&steps, &vec![badly()]), NextStep::Failed(said)
        if said == "command failed: docker version >/dev/null"));
    assert!(matches!(next_step(&steps, &vec![well()]), NextStep::Run(1)));
    assert!(matches!(next_step(&steps, &vec![well(), badly()]), NextStep::Run(2)));
    assert!(matches!(next_step(&steps, &vec![well(), badly(), well()]), NextStep::Finished));
    assert!(matches!(next_step(&steps, &vec![well(), well(), badly()]), NextStep::Failed(said)
        if said.starts_with("command failed: docker run -d --name via-db")));
}

#[test]
fn nothing_is_copied_where_no_place_could_be_made() {
    let runs = copy_dir("rig", "./app", "~/app");
    assert!(matches!(next_run(&runs, &vec![]), NextStep::Run(0)));
    assert!(matches!(next_run(&runs, &vec![Ran::NotStarted]), NextStep::Failed(said)
        if said == "failed to run ssh"));
    assert!(matches!(next_run(&runs, &vec![well()]), NextStep::Run(1)));
    assert!(matches!(next_run(&runs, &vec![well(), badly()]), NextStep::Failed(said)
        if said == "rsync failed with status exit status: 1"));
    assert!(matches!(next_run(&runs, &vec![well(), well()]), NextStep::Finished));
}

#[test]
fn downloads_use_what_is_there() {
    assert!(matches!(download_run(true, true, "u").unwrap(), Run::Program { program, args }
        if program == "curl" && args == vec!["-fsSL", "u"]));
    assert!(matches!(download_run(false, true, "u").unwrap(), Run::Program { program, args }
        if program == "wget" && args == vec!["-q", "u", "-O", "-"]));
    assert_eq!(download_run(false, false, "u").unwrap_err(), "update needs curl or wget");
}
