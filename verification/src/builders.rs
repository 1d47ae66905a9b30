//! Builder strategies: turning an extracted source tree into a
//! container image.
//!
//! A builder is a capability with one operation.  Its verified half
//! plans the engine invocation: it checks its inputs and produces the
//! exact image reference and command arguments; the engine subprocess
//! itself runs outside the library, which then interprets its output
//! with the parsing functions here.

use crate::text::{find_char, first_idx, lemma_first_idx_at, trim, trimmed};
use vstd::prelude::*;

verus! {

/// A built image: its full reference and, when discovery succeeded,
/// its digest.
#[derive(Debug, Clone)]
pub struct Image {
    /// The full image reference, `name:tag`.
    pub reference: String,
    /// The digest, when the best-effort lookup found one.
    pub digest: Option<String>,
}

impl Image {
    /// An image known only by its reference.
    pub fn new(reference: &str) -> (r: Image)
        ensures
            r.reference@ == reference@,
            r.digest is None,
    {
        Image { reference: reference.to_owned(), digest: None }
    }

    /// An image with its digest.
    pub fn with_digest(reference: &str, digest: &str) -> (r: Image)
        ensures
            r.reference@ == reference@,
            (r.digest matches Some(d) && d@ == digest@),
    {
        Image { reference: reference.to_owned(), digest: Some(digest.to_owned()) }
    }
}

/// Why a builder refused to plan a build.
#[derive(Debug, Clone, Copy, PartialEq, Eq, Structural)]
pub enum BuildError {
    /// The Dockerfile strategy found no Dockerfile in the source tree.
    MissingDockerfile,
    /// The strategy is reserved and not yet implemented.
    Unimplemented,
}

/// A planned engine invocation: everything the `build` subprocess call
/// needs.
#[derive(Debug, Clone)]
pub struct BuildPlan {
    /// The full reference the image will be tagged with, `name:tag`.
    pub image_reference: String,
    /// The Dockerfile driving the build.
    pub dockerfile_path: String,
    /// The build context directory.
    pub context_dir: String,
}

/// The `name:tag` reference for an image name and tag.
pub open spec fn image_ref_of(name: Seq<char>, tag: Seq<char>) -> Seq<char> {
    name + seq![':'] + tag
}

/// The Dockerfile path inside a build directory.
pub open spec fn dockerfile_in(build_path: Seq<char>) -> Seq<char> {
    build_path + "/Dockerfile"@
}

/// A strategy that can produce a container image from sources.
pub trait Builder {
    /// Whether planning succeeds, given whether the source tree holds
    /// a Dockerfile.
    spec fn plan_ok(&self, dockerfile_present: bool) -> bool;

    /// The error reported when planning fails.
    spec fn plan_err(&self) -> BuildError;

    /// Plans the engine invocation for a build of `build_path`,
    /// tagging the image `image_name:image_tag`.
    fn plan(
        &self,
        build_path: &str,
        dockerfile_present: bool,
        image_name: &str,
        image_tag: &str,
    ) -> (r: Result<BuildPlan, BuildError>)
        ensures
            (r is Ok) == self.plan_ok(dockerfile_present),
            r matches Ok(p) ==> p.image_reference@ == image_ref_of(image_name@, image_tag@)
                && p.dockerfile_path@ == dockerfile_in(build_path@) && p.context_dir@
                == build_path@,
            r matches Err(e) ==> e == self.plan_err(),
    ;
}

/// Builds with a Dockerfile found in the source tree.
pub struct DockerBuilder;

impl DockerBuilder {
    pub fn new() -> (r: DockerBuilder) {
        DockerBuilder
    }
}

impl Builder for DockerBuilder {
    /// The Dockerfile strategy needs a Dockerfile and nothing else.
    open spec fn plan_ok(&self, dockerfile_present: bool) -> bool {
        dockerfile_present
    }

    open spec fn plan_err(&self) -> BuildError {
        BuildError::MissingDockerfile
    }

    fn plan(
        &self,
        build_path: &str,
        dockerfile_present: bool,
        image_name: &str,
        image_tag: &str,
    ) -> (r: Result<BuildPlan, BuildError>) {
        if !dockerfile_present {
            return Err(BuildError::MissingDockerfile);
        }
        proof {
            reveal_strlit(":");
            reveal_strlit("/Dockerfile");
        }
        let mut reference = image_name.to_owned();
        reference.append(":");
        reference.append(image_tag);
        let mut dockerfile = build_path.to_owned();
        dockerfile.append("/Dockerfile");
        proof {
            assert(reference@ =~= image_ref_of(image_name@, image_tag@));
        }
        Ok(
            BuildPlan {
                image_reference: reference,
                dockerfile_path: dockerfile,
                context_dir: build_path.to_owned(),
            },
        )
    }
}

/// Builds a Go project; reserved to show how strategies plug in.
pub struct GoBuilder;

impl GoBuilder {
    pub fn new() -> (r: GoBuilder) {
        GoBuilder
    }
}

impl Builder for GoBuilder {
    /// The Go strategy is not implemented and never plans.
    open spec fn plan_ok(&self, dockerfile_present: bool) -> bool {
        false
    }

    open spec fn plan_err(&self) -> BuildError {
        BuildError::Unimplemented
    }

    fn plan(
        &self,
        build_path: &str,
        dockerfile_present: bool,
        image_name: &str,
        image_tag: &str,
    ) -> (r: Result<BuildPlan, BuildError>) {
        Err(BuildError::Unimplemented)
    }
}

/// The two strategies, as a closed sum selected by configuration.
#[derive(Debug, Clone, Copy, PartialEq, Eq, Structural)]
pub enum BuilderKind {
    Dockerfile,
    Go,
}

/// The strategy a configured builder type selects.
pub open spec fn kind_for(builder_type: crate::config::BuilderType) -> BuilderKind {
    match builder_type {
        crate::config::BuilderType::Dockerfile => BuilderKind::Dockerfile,
        crate::config::BuilderType::Go => BuilderKind::Go,
    }
}

/// Selects the strategy for a configured builder type.
pub fn select_builder(builder_type: crate::config::BuilderType) -> (r: BuilderKind)
    ensures
        r == kind_for(builder_type),
{
    match builder_type {
        crate::config::BuilderType::Dockerfile => BuilderKind::Dockerfile,
        crate::config::BuilderType::Go => BuilderKind::Go,
    }
}

impl BuilderKind {
    /// Whether this strategy plans successfully.
    pub open spec fn plan_ok(self, dockerfile_present: bool) -> bool {
        match self {
            BuilderKind::Dockerfile => dockerfile_present,
            BuilderKind::Go => false,
        }
    }

    /// The error reported when planning fails.
    pub open spec fn plan_err(self) -> BuildError {
        match self {
            BuilderKind::Dockerfile => BuildError::MissingDockerfile,
            BuilderKind::Go => BuildError::Unimplemented,
        }
    }

    /// Plans the engine invocation with the selected strategy.
    pub fn plan(
        self,
        build_path: &str,
        dockerfile_present: bool,
        image_name: &str,
        image_tag: &str,
    ) -> (r: Result<BuildPlan, BuildError>)
        ensures
            (r is Ok) == self.plan_ok(dockerfile_present),
            r matches Ok(p) ==> p.image_reference@ == image_ref_of(image_name@, image_tag@)
                && p.dockerfile_path@ == dockerfile_in(build_path@) && p.context_dir@
                == build_path@,
            r matches Err(e) ==> e == self.plan_err(),
    {
        match self {
            BuilderKind::Dockerfile => DockerBuilder::new().plan(
                build_path,
                dockerfile_present,
                image_name,
                image_tag,
            ),
            BuilderKind::Go => GoBuilder::new().plan(
                build_path,
                dockerfile_present,
                image_name,
                image_tag,
            ),
        }
    }
}

impl BuildPlan {
    /// The arguments of the engine's build command:
    /// `build --tag <ref> --file <dockerfile> <context>`.
    pub fn build_args(&self) -> (r: Vec<String>)
        ensures
            r@.len() == 6,
            r@[0]@ == "build"@,
            r@[1]@ == "--tag"@,
            r@[2]@ == self.image_reference@,
            r@[3]@ == "--file"@,
            r@[4]@ == self.dockerfile_path@,
            r@[5]@ == self.context_dir@,
    {
        let mut args: Vec<String> = Vec::new();
        args.push("build".to_owned());
        args.push("--tag".to_owned());
        args.push(self.image_reference.clone());
        args.push("--file".to_owned());
        args.push(self.dockerfile_path.clone());
        args.push(self.context_dir.clone());
        args
    }
}

/// What the digest lookup reads in the engine's `RepoDigests` output:
/// the segment after the first `@` of the trimmed text, up to the next
/// `@`, if the text is non-empty and holds an `@` at all.
pub open spec fn repo_digest_of(stdout: Seq<char>) -> Option<Seq<char>> {
    let t = trimmed(stdout);
    if t.len() == 0 || first_idx(t, '@') == t.len() {
        None
    } else {
        let rest = t.subrange(first_idx(t, '@') + 1, t.len() as int);
        Some(rest.subrange(0, first_idx(rest, '@')))
    }
}

/// Extracts the digest from the engine's `RepoDigests` inspect output.
pub fn parse_repo_digest(stdout: &str) -> (r: Option<String>)
    ensures
        match repo_digest_of(stdout@) {
            Some(d) => (r matches Some(s) && s@ == d),
            None => r is None,
        },
{
    let t = trim(stdout);
    let tlen = t.unicode_len();
    let f = find_char(t, 0, '@');
    if tlen == 0 || f == tlen {
        return None;
    }
    let g = find_char(t, f + 1, '@');
    let ghost rest = t@.subrange(f as int + 1, tlen as int);
    proof {
        assert(first_idx(t@, '@') == f);
        assert(first_idx(rest, '@') == g - f - 1) by {
            assert(forall|j: int| 0 <= j < g - f - 1 ==> rest[j] == t@[j + f + 1]);
            assert(g < tlen ==> rest[g - f - 1] == t@[g as int]);
            lemma_first_idx_at(rest, g - f - 1, '@');
        }
        assert(rest.subrange(0, g - f - 1) =~= t@.subrange(f + 1, g as int));
    }
    Some(t.substring_char(f + 1, g).to_owned())
}

/// What the fallback image-id lookup reads: the trimmed inspect
/// output, if non-empty.
pub open spec fn image_id_of(stdout: Seq<char>) -> Option<Seq<char>> {
    if trimmed(stdout).len() == 0 {
        None
    } else {
        Some(trimmed(stdout))
    }
}

/// Extracts the image id from the engine's `.Id` inspect output.
pub fn parse_image_id(stdout: &str) -> (r: Option<String>)
    ensures
        match image_id_of(stdout@) {
            Some(d) => (r matches Some(s) && s@ == d),
            None => r is None,
        },
{
    let t = trim(stdout);
    if t.unicode_len() == 0 {
        None
    } else {
        Some(t.to_owned())
    }
}

} // verus!
