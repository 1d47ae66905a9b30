use nimble::builders::{
    parse_image_id, parse_repo_digest, select_builder, BuildError, BuilderKind, Image,
};
use nimble::config::BuilderType;

#[test]
fn image_constructors() {
    let img = Image::new("app:latest");
    assert_eq!(img.reference, "app:latest");
    assert!(img.digest.is_none());
    let img = Image::with_digest("app:latest", "sha256:abc");
    assert_eq!(img.digest.as_deref(), Some("sha256:abc"));
}

#[test]
fn selection_follows_the_config() {
    assert_eq!(select_builder(BuilderType::Dockerfile), BuilderKind::Dockerfile);
    assert_eq!(select_builder(BuilderType::Go), BuilderKind::Go);
}

#[test]
fn dockerfile_plan_produces_the_engine_invocation() {
    let plan = BuilderKind::Dockerfile.plan("/ws/b1", true, "nimble-build-x", "latest").unwrap();
    assert_eq!(plan.image_reference, "nimble-build-x:latest");
    assert_eq!(plan.dockerfile_path, "/ws/b1/Dockerfile");
    assert_eq!(plan.context_dir, "/ws/b1");
    let args_owned = plan.build_args();
    let args: Vec<&str> = args_owned.iter().map(|s| s.as_str()).collect();
    assert_eq!(
        args,
        vec!["build", "--tag", "nimble-build-x:latest", "--file", "/ws/b1/Dockerfile", "/ws/b1"]
    );
}

#[test]
fn dockerfile_plan_requires_a_dockerfile() {
    let err = BuilderKind::Dockerfile.plan("/ws/b1", false, "n", "latest").unwrap_err();
    assert_eq!(err, BuildError::MissingDockerfile);
}

#[test]
fn go_plan_is_unimplemented() {
    let err = BuilderKind::Go.plan("/ws/b1", true, "n", "latest").unwrap_err();
    assert_eq!(err, BuildError::Unimplemented);
}

#[test]
fn repo_digest_is_read_after_the_at_sign() {
    assert_eq!(
        parse_repo_digest("registry/app@sha256:abc123\n").as_deref(),
        Some("sha256:abc123")
    );
    assert_eq!(parse_repo_digest("  \n"), None);
    assert_eq!(parse_repo_digest("no-digest-here"), None);
}

#[test]
fn image_id_is_the_trimmed_output() {
    assert_eq!(parse_image_id("  sha256:fe3d\n").as_deref(), Some("sha256:fe3d"));
    assert_eq!(parse_image_id("   \n"), None);
}
