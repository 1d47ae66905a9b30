use nimble::deploy_worker::{DeployWorker, RunOutputError};
use nimble::ids::format_id;
use nimble::queue::DeployJob;

fn job() -> DeployJob {
    DeployJob {
        deploy_id: 7,
        build_id: 1,
        app: "hello".to_string(),
        image_reference: "nimble-build-x:latest".to_string(),
        app_port: 8080,
        previous_active_deployment: None,
    }
}

#[test]
fn container_names_carry_the_deploy_id() {
    let w = DeployWorker::new();
    assert_eq!(w.container_name_for(7), format!("nimble-deploy-{}", format_id(7)));
}

#[test]
fn run_arguments_publish_and_label() {
    let w = DeployWorker::new();
    let args = w.run_args(&job(), "nimble-deploy-x");
    let got: Vec<&str> = args.iter().map(|s| s.as_str()).collect();
    let id_label = format!("nimble.deploy_id={}", format_id(7));
    let want = vec![
        "run",
        "-d",
        "-p",
        "0:8080",
        "--name",
        "nimble-deploy-x",
        "--label",
        "nimble.app=hello",
        "--label",
        id_label.as_str(),
        "nimble-build-x:latest",
    ];
    assert_eq!(got, want);
}

#[test]
fn run_output_yields_the_trimmed_container_id() {
    let w = DeployWorker::new();
    assert_eq!(w.interpret_run_output(true, "abcdef123456\n").unwrap(), "abcdef123456");
    assert_eq!(w.interpret_run_output(false, "x").unwrap_err(), RunOutputError::EngineFailed);
    assert_eq!(w.interpret_run_output(true, "  \n").unwrap_err(), RunOutputError::NoContainerId);
}

#[test]
fn host_port_is_read_after_the_last_colon() {
    let w = DeployWorker::new();
    assert_eq!(w.parse_host_port("0.0.0.0:32768\n").as_deref(), Some("32768"));
    assert_eq!(w.parse_host_port("[::]:32769\n0.0.0.0:32768\n").as_deref(), Some("32769"));
    assert_eq!(w.parse_host_port("no mapping"), None);
    assert_eq!(w.parse_host_port(""), None);
}

#[test]
fn skips_lines_without_a_colon() {
    let w = DeployWorker::new();
    assert_eq!(w.parse_host_port("warning\n0.0.0.0:31000\n").as_deref(), Some("31000"));
}

#[test]
fn addresses_point_at_loopback() {
    let w = DeployWorker::new();
    assert_eq!(w.address_for("32768"), "http://127.0.0.1:32768");
}

#[test]
fn removal_tolerates_missing_containers() {
    let w = DeployWorker::new();
    assert!(w.removal_ok(true, ""));
    assert!(w.removal_ok(false, "Error response from daemon: no such container: abc"));
    assert!(!w.removal_ok(false, "permission denied"));
}
