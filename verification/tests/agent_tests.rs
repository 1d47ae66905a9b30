use nimble::agent::{AgentConfig, RunMode};
use nimble::ids::format_id;

#[test]
fn truthy_values_select_dev_mode() {
    for v in ["1", "true", "yes", "on", "TRUE", "Yes", "ON"] {
        assert_eq!(RunMode::from_env_value(Some(v)), RunMode::Dev);
    }
}

#[test]
fn other_values_and_unset_mean_prod() {
    for v in ["0", "false", "no", "off", "", "2", "enabled"] {
        assert_eq!(RunMode::from_env_value(Some(v)), RunMode::Prod);
    }
    assert_eq!(RunMode::from_env_value(None), RunMode::Prod);
}

#[test]
fn data_dir_defaults_follow_the_mode() {
    assert_eq!(AgentConfig::new(RunMode::Dev).get_data_dir(), "./data");
    assert_eq!(AgentConfig::new(RunMode::Prod).get_data_dir(), "/var/lib/nimble");
}

#[test]
fn explicit_data_dir_wins() {
    let mut cfg = AgentConfig::new(RunMode::Prod);
    cfg.set_data_dir("/tmp/nimble".to_string());
    assert_eq!(cfg.get_data_dir(), "/tmp/nimble");
}

#[test]
fn artifact_paths_are_deterministic() {
    let cfg = AgentConfig::new(RunMode::Dev);
    let paths = cfg.paths();
    let id: u128 = 7;
    let tag = format_id(id);
    assert_eq!(paths.source_archive(id), format!("./data/artifacts/source/{tag}.tar.gz"));
    assert_eq!(paths.build_dir(id), format!("./data/artifacts/build/{tag}"));
    assert_eq!(paths.database(), "./data/nimble.db");
}
