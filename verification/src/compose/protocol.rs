//! The command lines of the container runtimes.
use vstd::prelude::*;
use vstd::string::*;
use crate::compose::apple_outputs::{
    apple_images, apple_images_listed, apple_inspect, apple_inspected, apple_list, apple_listed,
};
use crate::compose::args::{
    flag_each, flag_if, flag_pairs, flag_pairs_opt, flag_value, no_args, push_each, push_if,
    push_map, push_opt, push_pairs, push_set, push_value, push_word, push_words, push_words_opt,
    words_of,
};
use crate::compose::backend::{ProfileView, SecurityProfile};
use crate::compose::capabilities::{
    aliases_warning, apple_table, docker_table, lima_table, no_new_privileges_warning,
    normalise_security_profile, normalise_spec_for, normalised, normalised_profile, podman_table,
    privileged_warning, profile_warnings, seccomp_warning, spec_warnings, warning_views,
    BackendCapabilities, NormalizationWarning,
};
use crate::compose::error::{ErrorView, Result};
use crate::compose::maps::{from_pairs, OrderedMap};
use crate::compose::outputs::{
    docker_images, docker_inspect, docker_inspected, docker_list, image_views, info_views, listed,
    listed_images, same_inspection,
};
use crate::compose::types::{
    settings, text_opt, texts_opt, ComposeNetwork, ComposeServiceBuild, ComposeVolume, ContainerInfo,
    ContainerInfoView, ContainerSpec, ContainerSpecView, ImageInfo, ImageInfoView, ListOrDict,
};
use crate::text::{
    decimal, decimal_text, join, join2, joined, lemma_texts_push, lines_of, same, texts, trim,
    trimmed,
};

verus! {

broadcast use lemma_texts_push;

/// How a runtime is called, and how its answers are read.
pub trait CliProtocol {
    /// The arguments that run a container.
    spec fn run_words(&self, spec: ContainerSpecView) -> Seq<Seq<char>>;

    /// The arguments that harden a container.
    spec fn security_words(&self, profile: ProfileView) -> Seq<Seq<char>>;

    /// What the runtime can do.
    spec fn table(&self) -> BackendCapabilities;

    /// The arguments that create a container.
    spec fn create_words(&self, spec: ContainerSpecView) -> Seq<Seq<char>>;

    /// The arguments that start a container.
    spec fn start_words(&self, id: Seq<char>) -> Seq<Seq<char>>;

    /// The arguments that stop a container.
    spec fn stop_words(&self, id: Seq<char>, timeout: Option<u32>) -> Seq<Seq<char>>;

    /// The arguments that remove a container.
    spec fn remove_words(&self, id: Seq<char>, force: bool) -> Seq<Seq<char>>;

    /// The arguments that list containers.
    spec fn list_words(&self, all: bool) -> Seq<Seq<char>>;

    /// The arguments that inspect a container.
    spec fn inspect_words(&self, id: Seq<char>) -> Seq<Seq<char>>;

    /// The arguments that show the logs of a container.
    spec fn logs_words(&self, id: Seq<char>, tail: Option<u32>) -> Seq<Seq<char>>;

    /// The arguments that run a command in a container.
    spec fn exec_words(
        &self,
        id: Seq<char>,
        cmd: Seq<Seq<char>>,
        env: Option<&OrderedMap<String>>,
        workdir: Option<&str>,
    ) -> Seq<Seq<char>>;

    /// The arguments that pull an image.
    spec fn pull_image_words(&self, reference: Seq<char>) -> Seq<Seq<char>>;

    /// The arguments that list images.
    spec fn list_images_words(&self) -> Seq<Seq<char>>;

    /// The arguments that remove an image.
    spec fn remove_image_words(&self, reference: Seq<char>, force: bool) -> Seq<Seq<char>>;

    /// The arguments that create a network.
    spec fn create_network_words(&self, name: Seq<char>, config: ComposeNetwork) -> Seq<Seq<char>>;

    /// The arguments that remove a network.
    spec fn remove_network_words(&self, name: Seq<char>) -> Seq<Seq<char>>;

    /// The arguments that create a volume.
    spec fn create_volume_words(&self, name: Seq<char>, config: ComposeVolume) -> Seq<Seq<char>>;

    /// The arguments that remove a volume.
    spec fn remove_volume_words(&self, name: Seq<char>) -> Seq<Seq<char>>;

    /// The arguments that list the names of networks, one to a line.
    spec fn list_networks_words(&self) -> Seq<Seq<char>>;

    /// The arguments that list the names of volumes, one to a line.
    spec fn list_volumes_words(&self) -> Seq<Seq<char>>;

    /// The arguments that inspect a network.
    spec fn inspect_network_words(&self, name: Seq<char>) -> Seq<Seq<char>>;

    /// The arguments that inspect a volume.
    spec fn inspect_volume_words(&self, name: Seq<char>) -> Seq<Seq<char>>;

    /// The arguments that inspect an image.
    spec fn inspect_image_words(&self, reference: Seq<char>) -> Seq<Seq<char>>;

    /// The arguments that build an image.
    spec fn build_words(&self, spec: ComposeServiceBuild, image_name: Seq<char>) -> Seq<Seq<char>>;

    /// The containers that the runtime says there are.
    spec fn containers_read(
        &self,
        stdout: Seq<char>,
    ) -> std::result::Result<Seq<ContainerInfoView>, ErrorView>;

    /// The container that an inspection finds.
    spec fn container_read(
        &self,
        stdout: Seq<char>,
    ) -> std::result::Result<ContainerInfoView, ErrorView>;

    /// The images that the runtime says there are.
    spec fn images_read(
        &self,
        stdout: Seq<char>,
    ) -> std::result::Result<Seq<ImageInfoView>, ErrorView>;

    /// The identifier of a container that was made.
    spec fn id_read(&self, stdout: Seq<char>) -> std::result::Result<Seq<char>, ErrorView>;

    /// The command that stands before all others.
    spec fn prefix(&self) -> Option<Seq<char>>;

    fn subcommand_prefix(&self) -> (r: Option<&str>)
        ensures
            str_opt(r) == self.prefix(),
    ;

    fn capabilities(&self) -> (r: BackendCapabilities)
        ensures
            r == self.table(),
    ;

    fn run_args(&self, spec: &ContainerSpec) -> (r: Vec<String>)
        ensures
            texts(r@) == self.run_words(spec@),
    ;

    fn create_args(&self, spec: &ContainerSpec) -> (r: Vec<String>)
        ensures
            texts(r@) == self.create_words(spec@),
    ;

    fn start_args(&self, id: &str) -> (r: Vec<String>)
        ensures
            texts(r@) == self.start_words(id@),
    ;

    fn stop_args(&self, id: &str, timeout: Option<u32>) -> (r: Vec<String>)
        ensures
            texts(r@) == self.stop_words(id@, timeout),
    ;

    fn remove_args(&self, id: &str, force: bool) -> (r: Vec<String>)
        ensures
            texts(r@) == self.remove_words(id@, force),
    ;

    fn list_args(&self, all: bool) -> (r: Vec<String>)
        ensures
            texts(r@) == self.list_words(all),
    ;

    fn inspect_args(&self, id: &str) -> (r: Vec<String>)
        ensures
            texts(r@) == self.inspect_words(id@),
    ;

    fn logs_args(&self, id: &str, tail: Option<u32>) -> (r: Vec<String>)
        ensures
            texts(r@) == self.logs_words(id@, tail),
    ;

    fn exec_args(
        &self,
        id: &str,
        cmd: &[String],
        env: Option<&OrderedMap<String>>,
        workdir: Option<&str>,
    ) -> (r: Vec<String>)
        ensures
            texts(r@) == self.exec_words(id@, texts(cmd@), env, workdir),
    ;

    fn pull_image_args(&self, reference: &str) -> (r: Vec<String>)
        ensures
            texts(r@) == self.pull_image_words(reference@),
    ;

    fn list_images_args(&self) -> (r: Vec<String>)
        ensures
            texts(r@) == self.list_images_words(),
    ;

    fn remove_image_args(&self, reference: &str, force: bool) -> (r: Vec<String>)
        ensures
            texts(r@) == self.remove_image_words(reference@, force),
    ;

    fn create_network_args(&self, name: &str, config: &ComposeNetwork) -> (r: Vec<String>)
        ensures
            texts(r@) == self.create_network_words(name@, *config),
    ;

    fn remove_network_args(&self, name: &str) -> (r: Vec<String>)
        ensures
            texts(r@) == self.remove_network_words(name@),
    ;

    fn create_volume_args(&self, name: &str, config: &ComposeVolume) -> (r: Vec<String>)
        ensures
            texts(r@) == self.create_volume_words(name@, *config),
    ;

    fn remove_volume_args(&self, name: &str) -> (r: Vec<String>)
        ensures
            texts(r@) == self.remove_volume_words(name@),
    ;

    fn list_networks_args(&self) -> (r: Vec<String>)
        ensures
            texts(r@) == self.list_networks_words(),
    ;

    fn list_volumes_args(&self) -> (r: Vec<String>)
        ensures
            texts(r@) == self.list_volumes_words(),
    ;

    fn inspect_network_args(&self, name: &str) -> (r: Vec<String>)
        ensures
            texts(r@) == self.inspect_network_words(name@),
    ;

    fn inspect_volume_args(&self, name: &str) -> (r: Vec<String>)
        ensures
            texts(r@) == self.inspect_volume_words(name@),
    ;

    fn inspect_image_args(&self, reference: &str) -> (r: Vec<String>)
        ensures
            texts(r@) == self.inspect_image_words(reference@),
    ;

    fn build_args(&self, spec: &ComposeServiceBuild, image_name: &str) -> (r: Vec<String>)
        ensures
            texts(r@) == self.build_words(*spec, image_name@),
    ;

    fn security_args(&self, profile: &SecurityProfile) -> (r: Vec<String>)
        ensures
            texts(r@) == self.security_words(profile@),
    ;

    fn parse_list_output(&self, stdout: &str) -> (r: Result<Vec<ContainerInfo>>)
        ensures
            same_containers(r, self.containers_read(stdout@)),
    ;

    fn parse_inspect_output(&self, stdout: &str) -> (r: Result<ContainerInfo>)
        ensures
            same_inspection(r, self.container_read(stdout@)),
    ;

    fn parse_list_images_output(&self, stdout: &str) -> (r: Result<Vec<ImageInfo>>)
        ensures
            same_images(r, self.images_read(stdout@)),
    ;

    fn parse_container_id(&self, stdout: &str) -> (r: Result<String>)
        ensures
            same_id(r, self.id_read(stdout@)),
    ;
}

/// Whether a result is the containers that were read.
pub open spec fn same_containers(
    r: Result<Vec<ContainerInfo>>,
    v: std::result::Result<Seq<ContainerInfoView>, ErrorView>,
) -> bool {
    match r {
        Ok(infos) => v == Ok::<Seq<ContainerInfoView>, ErrorView>(info_views(infos@)),
        Err(e) => v == Err::<Seq<ContainerInfoView>, ErrorView>(e@),
    }
}

/// Whether a result is the images that were read.
pub open spec fn same_images(
    r: Result<Vec<ImageInfo>>,
    v: std::result::Result<Seq<ImageInfoView>, ErrorView>,
) -> bool {
    match r {
        Ok(images) => v == Ok::<Seq<ImageInfoView>, ErrorView>(image_views(images@)),
        Err(e) => v == Err::<Seq<ImageInfoView>, ErrorView>(e@),
    }
}

/// Whether a result is the identifier that was read.
pub open spec fn same_id(
    r: Result<String>,
    v: std::result::Result<Seq<char>, ErrorView>,
) -> bool {
    match r {
        Ok(id) => v == Ok::<Seq<char>, ErrorView>(id@),
        Err(e) => v == Err::<Seq<char>, ErrorView>(e@),
    }
}

// ---- arguments in the Docker form ----

/// A flag with a number.
pub open spec fn flag_number(flag: Seq<char>, n: Option<u32>) -> Seq<Seq<char>> {
    match n {
        Some(n) => seq![flag, decimal(n as nat)],
        None => Seq::empty(),
    }
}

fn push_number(args: &mut Vec<String>, flag: &str, n: Option<u32>)
    ensures
        texts(final(args)@) == texts(old(args)@) + flag_number(flag@, n),
{
    match n {
        Some(n) => push_value(args, flag, decimal_text(n as u64).as_str()),
        None => {
            assert(texts(args@) =~= texts(old(args)@) + Seq::<Seq<char>>::empty());
        },
    }
}

/// The text of an entry point.
pub open spec fn entry_point(words: Option<Seq<Seq<char>>>) -> Option<Seq<char>> {
    match words {
        Some(v) => Some(joined(v, " "@)),
        None => None,
    }
}

fn push_entry_point(args: &mut Vec<String>, words: &Option<Vec<String>>)
    ensures
        texts(final(args)@) == texts(old(args)@) + flag_value(
            "--entrypoint"@,
            entry_point(texts_opt(*words)),
        ),
{
    match words {
        Some(v) => push_value(args, "--entrypoint", join(v, " ").as_str()),
        None => {
            assert(texts(args@) =~= texts(old(args)@) + Seq::<Seq<char>>::empty());
        },
    }
}

/// The labels of a network or volume.
pub open spec fn label_words(labels: Option<ListOrDict>) -> Seq<Seq<char>> {
    match labels {
        Some(l) => flag_pairs("--label"@, from_pairs(settings(l))),
        None => Seq::empty(),
    }
}

fn push_labels(args: &mut Vec<String>, labels: &Option<ListOrDict>)
    ensures
        texts(final(args)@) == texts(old(args)@) + label_words(*labels),
{
    match labels {
        Some(l) => push_map(args, "--label", &l.to_map()),
        None => {
            assert(texts(args@) =~= texts(old(args)@) + Seq::<Seq<char>>::empty());
        },
    }
}

/// The environment of a command.
pub open spec fn env_words(env: Option<&OrderedMap<String>>) -> Seq<Seq<char>> {
    match env {
        Some(m) => flag_pairs("-e"@, m.pairs()),
        None => Seq::empty(),
    }
}

fn push_env(args: &mut Vec<String>, env: Option<&OrderedMap<String>>)
    ensures
        texts(final(args)@) == texts(old(args)@) + env_words(env),
{
    match env {
        Some(m) => push_map(args, "-e", m),
        None => {
            assert(texts(args@) =~= texts(old(args)@) + Seq::<Seq<char>>::empty());
        },
    }
}

/// The text of an optional text.
pub open spec fn str_opt(o: Option<&str>) -> Option<Seq<char>> {
    match o {
        Some(s) => Some(s@),
        None => None,
    }
}

fn push_str_opt(args: &mut Vec<String>, flag: &str, value: Option<&str>)
    ensures
        texts(final(args)@) == texts(old(args)@) + flag_value(flag@, str_opt(value)),
{
    match value {
        Some(v) => push_value(args, flag, v),
        None => {
            assert(texts(args@) =~= texts(old(args)@) + Seq::<Seq<char>>::empty());
        },
    }
}

/// Whether a setting is on.
pub open spec fn on(o: Option<bool>) -> bool {
    o == Some(true)
}


fn push_image(args: &mut Vec<String>, image: &str)
    ensures
        texts(final(args)@) == texts(old(args)@) + seq![image@],
{
    args.push(image.to_owned());
    assert(texts(args@) =~= texts(old(args)@) + seq![image@]);
}

/// A container run in the Docker form.
pub open spec fn docker_run(s: ContainerSpecView) -> Seq<Seq<char>> {
    seq!["run"@, "--detach"@]
        + flag_value("--name"@, s.name)
        + flag_each("-p"@, s.ports)
        + flag_each("-v"@, s.volumes)
        + flag_pairs_opt("-e"@, s.env)
        + flag_pairs_opt("--label"@, s.labels)
        + flag_value("--network"@, s.network)
        + flag_each("--network-alias"@, s.network_aliases)
        + flag_if("--rm"@, on(s.rm))
        + flag_if("--read-only"@, on(s.read_only))
        + flag_if("--privileged"@, on(s.privileged))
        + flag_value("--user"@, s.user)
        + flag_value("--workdir"@, s.workdir)
        + flag_each("--cap-add"@, s.cap_add)
        + flag_each("--cap-drop"@, s.cap_drop)
        + flag_value("--entrypoint"@, entry_point(s.entrypoint))
        + seq![s.image]
        + words_of(s.cmd)
}

/// A container created in the Docker form.
pub open spec fn docker_create(s: ContainerSpecView) -> Seq<Seq<char>> {
    seq!["create"@]
        + flag_value("--name"@, s.name)
        + flag_each("-p"@, s.ports)
        + flag_each("-v"@, s.volumes)
        + flag_pairs_opt("-e"@, s.env)
        + flag_pairs_opt("--label"@, s.labels)
        + flag_value("--network"@, s.network)
        + flag_if("--read-only"@, on(s.read_only))
        + flag_if("--privileged"@, on(s.privileged))
        + flag_value("--user"@, s.user)
        + flag_value("--workdir"@, s.workdir)
        + flag_each("--cap-add"@, s.cap_add)
        + flag_each("--cap-drop"@, s.cap_drop)
        + flag_value("--entrypoint"@, entry_point(s.entrypoint))
        + seq![s.image]
        + words_of(s.cmd)
}

/// What the Apple runtime is told of a container. It knows no privileged mode.
pub open spec fn apple_container(s: ContainerSpecView) -> Seq<Seq<char>> {
    flag_if("--rm"@, on(s.rm))
        + flag_value("--name"@, s.name)
        + flag_value("--network"@, s.network)
        + flag_each("--network-alias"@, s.network_aliases)
        + flag_each("-p"@, s.ports)
        + flag_each("-v"@, s.volumes)
        + flag_pairs_opt("-e"@, s.env)
        + flag_pairs_opt("--label"@, s.labels)
        + flag_if("--read-only"@, on(s.read_only))
        + flag_value("--user"@, s.user)
        + flag_value("--workdir"@, s.workdir)
        + flag_each("--cap-add"@, s.cap_add)
        + flag_each("--cap-drop"@, s.cap_drop)
        + flag_value("--entrypoint"@, entry_point(s.entrypoint))
        + seq![s.image]
        + words_of(s.cmd)
}

/// A container run by the Apple runtime.
pub open spec fn apple_run(s: ContainerSpecView) -> Seq<Seq<char>> {
    seq!["run"@, "--detach"@] + apple_container(s)
}

/// A container created by the Apple runtime: as it is run, but for detaching.
pub open spec fn apple_create(s: ContainerSpecView) -> Seq<Seq<char>> {
    seq!["create"@] + apple_container(s)
}

/// A container stopped.
pub open spec fn stop_words(id: Seq<char>, timeout: Option<u32>) -> Seq<Seq<char>> {
    seq!["stop"@]
        + flag_number("--time"@, timeout)
        + seq![id]
}

/// A command run in a container.
pub open spec fn exec_words(id: Seq<char>,
    cmd: Seq<Seq<char>>,
    env: Option<&OrderedMap<String>>,
    workdir: Option<&str>,
) -> Seq<Seq<char>> {
    seq!["exec"@]
        + flag_value("--workdir"@, str_opt(workdir))
        + env_words(env)
        + seq![id]
        + cmd
}

/// An image built.
pub open spec fn build_words(b: ComposeServiceBuild, image_name: Seq<char>) -> Seq<Seq<char>> {
    seq!["build"@, "-t"@, image_name] + flag_value("-f"@, text_opt(b.containerfile)) + seq![
        match b.context {
            Some(c) => c@,
            None => "."@,
        },
    ]
}

/// The hardening of a container in the Docker form.
pub open spec fn docker_security(p: ProfileView) -> Seq<Seq<char>> {
    flag_if("--read-only"@, p.read_only_root) + flag_value(
        "--security-opt"@,
        match p.seccomp {
            Some(path) => Some("seccomp="@ + path),
            None => None,
        },
    ) + flag_value(
        "--security-opt"@,
        if p.no_new_privileges {
            Some("no-new-privileges:true"@)
        } else {
            None
        },
    )
}

fn run_in_container(
    id: &str,
    cmd: &[String],
    env: Option<&OrderedMap<String>>,
    workdir: Option<&str>,
) -> (r: Vec<String>)
    ensures
        texts(r@) == exec_words(id@, texts(cmd@), env, workdir),
{
    let mut args = no_args();
    push_word(&mut args, "exec");
    push_str_opt(&mut args, "--workdir", workdir);
    push_env(&mut args, env);
    push_image(&mut args, id);
    push_words(&mut args, cmd);
    args
}

fn stop_container(id: &str, timeout: Option<u32>) -> (r: Vec<String>)
    ensures
        texts(r@) == stop_words(id@, timeout),
{
    let mut args = no_args();
    push_word(&mut args, "stop");
    push_number(&mut args, "--time", timeout);
    push_image(&mut args, id);
    args
}

fn build_image(spec: &ComposeServiceBuild, image_name: &str) -> (r: Vec<String>)
    ensures
        texts(r@) == build_words(*spec, image_name@),
{
    let mut args = no_args();
    push_word(&mut args, "build");
    push_word(&mut args, "-t");
    push_word(&mut args, image_name);
    push_opt(&mut args, "-f", &spec.containerfile);
    match &spec.context {
        Some(c) => push_image(&mut args, c.as_str()),
        None => push_image(&mut args, "."),
    }
    args
}

fn words2(a: &str, b: &str) -> (r: Vec<String>)
    ensures
        texts(r@) == seq![a@, b@],
{
    let mut args = no_args();
    push_word(&mut args, a);
    push_word(&mut args, b);
    args
}

fn words3(a: &str, b: &str, c: &str) -> (r: Vec<String>)
    ensures
        texts(r@) == seq![a@, b@, c@],
{
    let mut args = no_args();
    push_word(&mut args, a);
    push_word(&mut args, b);
    push_word(&mut args, c);
    args
}

fn words4(a: &str, b: &str, c: &str, d: &str) -> (r: Vec<String>)
    ensures
        texts(r@) == seq![a@, b@, c@, d@],
{
    let mut args = no_args();
    push_word(&mut args, a);
    push_word(&mut args, b);
    push_word(&mut args, c);
    push_word(&mut args, d);
    args
}

// ---- Docker and what speaks its language ----

/// Docker, and the runtimes that take the same command line.
pub struct DockerProtocol;

impl CliProtocol for DockerProtocol {
    open spec fn run_words(&self, spec: ContainerSpecView) -> Seq<Seq<char>> {
        docker_run(spec)
    }

    open spec fn security_words(&self, profile: ProfileView) -> Seq<Seq<char>> {
        docker_security(profile)
    }

    open spec fn table(&self) -> BackendCapabilities {
        docker_table()
    }

    open spec fn create_words(&self, spec: ContainerSpecView) -> Seq<Seq<char>> {
        docker_create(spec)
    }

    open spec fn start_words(&self, id: Seq<char>) -> Seq<Seq<char>> {
        seq!["start"@, id]
    }

    open spec fn stop_words(&self, id: Seq<char>, timeout: Option<u32>) -> Seq<Seq<char>> {
        stop_words(id, timeout)
    }

    open spec fn remove_words(&self, id: Seq<char>, force: bool) -> Seq<Seq<char>> {
        seq!["rm"@] + flag_if("-f"@, force) + seq![id]
    }

    open spec fn list_words(&self, all: bool) -> Seq<Seq<char>> {
        seq!["ps"@, "--format"@, "json"@] + flag_if("--all"@, all)
    }

    open spec fn inspect_words(&self, id: Seq<char>) -> Seq<Seq<char>> {
        seq!["inspect"@, "--format"@, "json"@, id]
    }

    open spec fn logs_words(&self, id: Seq<char>, tail: Option<u32>) -> Seq<Seq<char>> {
        seq!["logs"@] + flag_number("--tail"@, tail) + seq![id]
    }

    open spec fn exec_words(
        &self,
        id: Seq<char>,
        cmd: Seq<Seq<char>>,
        env: Option<&OrderedMap<String>>,
        workdir: Option<&str>,
    ) -> Seq<Seq<char>> {
        exec_words(id, cmd, env, workdir)
    }

    open spec fn pull_image_words(&self, reference: Seq<char>) -> Seq<Seq<char>> {
        seq!["pull"@, reference]
    }

    open spec fn list_images_words(&self) -> Seq<Seq<char>> {
        seq!["images"@, "--format"@, "json"@]
    }

    open spec fn remove_image_words(&self, reference: Seq<char>, force: bool) -> Seq<Seq<char>> {
        seq!["rmi"@] + flag_if("-f"@, force) + seq![reference]
    }

    open spec fn create_network_words(
        &self,
        name: Seq<char>,
        config: ComposeNetwork,
    ) -> Seq<Seq<char>> {
        seq!["network"@, "create"@]
            + flag_value("--driver"@, text_opt(config.driver))
            + label_words(config.labels)
            + seq![name]
    }

    open spec fn remove_network_words(&self, name: Seq<char>) -> Seq<Seq<char>> {
        seq!["network"@, "rm"@, name]
    }

    open spec fn create_volume_words(
        &self,
        name: Seq<char>,
        config: ComposeVolume,
    ) -> Seq<Seq<char>> {
        seq!["volume"@, "create"@]
            + flag_value("--driver"@, text_opt(config.driver))
            + label_words(config.labels)
            + seq![name]
    }

    open spec fn remove_volume_words(&self, name: Seq<char>) -> Seq<Seq<char>> {
        seq!["volume"@, "rm"@, name]
    }

    open spec fn list_networks_words(&self) -> Seq<Seq<char>> {
        seq!["network"@, "ls"@, "--format"@, "{{.Name}}"@]
    }

    open spec fn list_volumes_words(&self) -> Seq<Seq<char>> {
        seq!["volume"@, "ls"@, "--format"@, "{{.Name}}"@]
    }

    open spec fn inspect_network_words(&self, name: Seq<char>) -> Seq<Seq<char>> {
        seq!["network"@, "inspect"@, name]
    }

    open spec fn inspect_volume_words(&self, name: Seq<char>) -> Seq<Seq<char>> {
        seq!["volume"@, "inspect"@, name]
    }

    open spec fn inspect_image_words(&self, reference: Seq<char>) -> Seq<Seq<char>> {
        seq!["inspect"@, "--format"@, "json"@, reference]
    }

    open spec fn build_words(
        &self,
        spec: ComposeServiceBuild,
        image_name: Seq<char>,
    ) -> Seq<Seq<char>> {
        build_words(spec, image_name)
    }

    open spec fn containers_read(
        &self,
        stdout: Seq<char>,
    ) -> std::result::Result<Seq<ContainerInfoView>, ErrorView> {
        Ok(listed(lines_of(stdout)))
    }

    open spec fn container_read(
        &self,
        stdout: Seq<char>,
    ) -> std::result::Result<ContainerInfoView, ErrorView> {
        docker_inspected(stdout)
    }

    open spec fn images_read(
        &self,
        stdout: Seq<char>,
    ) -> std::result::Result<Seq<ImageInfoView>, ErrorView> {
        Ok(listed_images(lines_of(stdout)))
    }

    open spec fn id_read(&self, stdout: Seq<char>) -> std::result::Result<Seq<char>, ErrorView> {
        Ok(trimmed(stdout))
    }

    open spec fn prefix(&self) -> Option<Seq<char>> {
        None
    }

    fn subcommand_prefix(&self) -> (r: Option<&str>) {
        None
    }

    fn capabilities(&self) -> (r: BackendCapabilities) {
        BackendCapabilities::docker()
    }

    fn run_args(&self, spec: &ContainerSpec) -> (r: Vec<String>) {
        let mut args = no_args();
        push_word(&mut args, "run");
        push_word(&mut args, "--detach");
        push_opt(&mut args, "--name", &spec.name);
        push_each(&mut args, "-p", &spec.ports);
        push_each(&mut args, "-v", &spec.volumes);
        push_pairs(&mut args, "-e", &spec.env);
        push_pairs(&mut args, "--label", &spec.labels);
        push_opt(&mut args, "--network", &spec.network);
        push_each(&mut args, "--network-alias", &spec.network_aliases);
        push_set(&mut args, "--rm", spec.rm);
        push_set(&mut args, "--read-only", spec.read_only);
        push_set(&mut args, "--privileged", spec.privileged);
        push_opt(&mut args, "--user", &spec.user);
        push_opt(&mut args, "--workdir", &spec.workdir);
        push_each(&mut args, "--cap-add", &spec.cap_add);
        push_each(&mut args, "--cap-drop", &spec.cap_drop);
        push_entry_point(&mut args, &spec.entrypoint);
        push_image(&mut args, spec.image.as_str());
        push_words_opt(&mut args, &spec.cmd);
        args
    }

    fn create_args(&self, spec: &ContainerSpec) -> (r: Vec<String>) {
        let mut args = no_args();
        push_word(&mut args, "create");
        push_opt(&mut args, "--name", &spec.name);
        push_each(&mut args, "-p", &spec.ports);
        push_each(&mut args, "-v", &spec.volumes);
        push_pairs(&mut args, "-e", &spec.env);
        push_pairs(&mut args, "--label", &spec.labels);
        push_opt(&mut args, "--network", &spec.network);
        push_set(&mut args, "--read-only", spec.read_only);
        push_set(&mut args, "--privileged", spec.privileged);
        push_opt(&mut args, "--user", &spec.user);
        push_opt(&mut args, "--workdir", &spec.workdir);
        push_each(&mut args, "--cap-add", &spec.cap_add);
        push_each(&mut args, "--cap-drop", &spec.cap_drop);
        push_entry_point(&mut args, &spec.entrypoint);
        push_image(&mut args, spec.image.as_str());
        push_words_opt(&mut args, &spec.cmd);
        args
    }

    fn start_args(&self, id: &str) -> (r: Vec<String>) {
        words2("start", id)
    }

    fn stop_args(&self, id: &str, timeout: Option<u32>) -> (r: Vec<String>) {
        stop_container(id, timeout)
    }

    fn remove_args(&self, id: &str, force: bool) -> (r: Vec<String>) {
        let mut args = no_args();
        push_word(&mut args, "rm");
        push_if(&mut args, "-f", force);
        push_image(&mut args, id);
        args
    }

    fn list_args(&self, all: bool) -> (r: Vec<String>) {
        let mut args = no_args();
        push_word(&mut args, "ps");
        push_word(&mut args, "--format");
        push_word(&mut args, "json");
        push_if(&mut args, "--all", all);
        args
    }

    fn inspect_args(&self, id: &str) -> (r: Vec<String>) {
        words4("inspect", "--format", "json", id)
    }

    fn logs_args(&self, id: &str, tail: Option<u32>) -> (r: Vec<String>) {
        let mut args = no_args();
        push_word(&mut args, "logs");
        push_number(&mut args, "--tail", tail);
        push_image(&mut args, id);
        args
    }

    fn exec_args(
        &self,
        id: &str,
        cmd: &[String],
        env: Option<&OrderedMap<String>>,
        workdir: Option<&str>,
    ) -> (r: Vec<String>) {
        run_in_container(id, cmd, env, workdir)
    }

    fn pull_image_args(&self, reference: &str) -> (r: Vec<String>) {
        words2("pull", reference)
    }

    fn list_images_args(&self) -> (r: Vec<String>) {
        words3("images", "--format", "json")
    }

    fn remove_image_args(&self, reference: &str, force: bool) -> (r: Vec<String>) {
        let mut args = no_args();
        push_word(&mut args, "rmi");
        push_if(&mut args, "-f", force);
        push_image(&mut args, reference);
        args
    }

    fn create_network_args(&self, name: &str, config: &ComposeNetwork) -> (r: Vec<String>) {
        let mut args = no_args();
        push_word(&mut args, "network");
        push_word(&mut args, "create");
        push_opt(&mut args, "--driver", &config.driver);
        push_labels(&mut args, &config.labels);
        push_image(&mut args, name);
        args
    }

    fn remove_network_args(&self, name: &str) -> (r: Vec<String>) {
        words3("network", "rm", name)
    }

    fn create_volume_args(&self, name: &str, config: &ComposeVolume) -> (r: Vec<String>) {
        let mut args = no_args();
        push_word(&mut args, "volume");
        push_word(&mut args, "create");
        push_opt(&mut args, "--driver", &config.driver);
        push_labels(&mut args, &config.labels);
        push_image(&mut args, name);
        args
    }

    fn remove_volume_args(&self, name: &str) -> (r: Vec<String>) {
        words3("volume", "rm", name)
    }

    fn list_networks_args(&self) -> (r: Vec<String>) {
        words4("network", "ls", "--format", "{{.Name}}")
    }

    fn list_volumes_args(&self) -> (r: Vec<String>) {
        words4("volume", "ls", "--format", "{{.Name}}")
    }

    fn inspect_network_args(&self, name: &str) -> (r: Vec<String>) {
        words3("network", "inspect", name)
    }

    fn inspect_volume_args(&self, name: &str) -> (r: Vec<String>) {
        words3("volume", "inspect", name)
    }

    fn inspect_image_args(&self, reference: &str) -> (r: Vec<String>) {
        words4("inspect", "--format", "json", reference)
    }

    fn build_args(&self, spec: &ComposeServiceBuild, image_name: &str) -> (r: Vec<String>) {
        build_image(spec, image_name)
    }

    fn security_args(&self, profile: &SecurityProfile) -> (r: Vec<String>) {
        let mut args = no_args();
        push_if(&mut args, "--read-only", profile.read_only_root);
        assert(texts(args@) =~= flag_if("--read-only"@, profile.read_only_root));
        match &profile.seccomp {
            Some(path) => push_value(
                &mut args,
                "--security-opt",
                join2("seccomp=", path.as_str()).as_str(),
            ),
            None => push_str_opt(&mut args, "--security-opt", None),
        }
        if profile.no_new_privileges {
            push_value(&mut args, "--security-opt", "no-new-privileges:true");
        } else {
            push_str_opt(&mut args, "--security-opt", None);
        }
        args
    }

    fn parse_list_output(&self, stdout: &str) -> (r: Result<Vec<ContainerInfo>>) {
        Ok(docker_list(stdout))
    }

    fn parse_inspect_output(&self, stdout: &str) -> (r: Result<ContainerInfo>) {
        docker_inspect(stdout)
    }

    fn parse_list_images_output(&self, stdout: &str) -> (r: Result<Vec<ImageInfo>>) {
        Ok(docker_images(stdout))
    }

    fn parse_container_id(&self, stdout: &str) -> (r: Result<String>) {
        Ok(trim(stdout))
    }
}

// ---- Apple's container runtime ----

/// Apple's container runtime. Image commands stand under `image`, containers
/// are listed with `list` and removed with `delete`, and drivers, privileged
/// mode and seccomp profiles are unknown.
pub struct AppleContainerProtocol;

fn container_for_apple(spec: &ContainerSpec) -> (r: Vec<String>)
    ensures
        texts(r@) == apple_container(spec@),
{
    let mut args = no_args();
    push_set(&mut args, "--rm", spec.rm);
    assert(texts(args@) =~= flag_if("--rm"@, on(spec@.rm)));
    push_opt(&mut args, "--name", &spec.name);
    push_opt(&mut args, "--network", &spec.network);
    push_each(&mut args, "--network-alias", &spec.network_aliases);
    push_each(&mut args, "-p", &spec.ports);
    push_each(&mut args, "-v", &spec.volumes);
    push_pairs(&mut args, "-e", &spec.env);
    push_pairs(&mut args, "--label", &spec.labels);
    push_set(&mut args, "--read-only", spec.read_only);
    push_opt(&mut args, "--user", &spec.user);
    push_opt(&mut args, "--workdir", &spec.workdir);
    push_each(&mut args, "--cap-add", &spec.cap_add);
    push_each(&mut args, "--cap-drop", &spec.cap_drop);
    push_entry_point(&mut args, &spec.entrypoint);
    push_image(&mut args, spec.image.as_str());
    push_words_opt(&mut args, &spec.cmd);
    args
}

impl CliProtocol for AppleContainerProtocol {
    open spec fn run_words(&self, spec: ContainerSpecView) -> Seq<Seq<char>> {
        apple_run(spec)
    }

    open spec fn security_words(&self, profile: ProfileView) -> Seq<Seq<char>> {
        flag_if("--read-only"@, profile.read_only_root)
    }

    open spec fn table(&self) -> BackendCapabilities {
        apple_table()
    }

    open spec fn create_words(&self, spec: ContainerSpecView) -> Seq<Seq<char>> {
        apple_create(spec)
    }

    open spec fn start_words(&self, id: Seq<char>) -> Seq<Seq<char>> {
        seq!["start"@, id]
    }

    open spec fn stop_words(&self, id: Seq<char>, timeout: Option<u32>) -> Seq<Seq<char>> {
        stop_words(id, timeout)
    }

    open spec fn remove_words(&self, id: Seq<char>, force: bool) -> Seq<Seq<char>> {
        seq!["delete"@] + flag_if("--force"@, force) + seq![id]
    }

    open spec fn list_words(&self, all: bool) -> Seq<Seq<char>> {
        seq!["list"@, "--format"@, "json"@] + flag_if("--all"@, all)
    }

    open spec fn inspect_words(&self, id: Seq<char>) -> Seq<Seq<char>> {
        seq!["inspect"@, id]
    }

    open spec fn logs_words(&self, id: Seq<char>, tail: Option<u32>) -> Seq<Seq<char>> {
        seq!["logs"@] + flag_number("-n"@, tail) + seq![id]
    }

    open spec fn exec_words(
        &self,
        id: Seq<char>,
        cmd: Seq<Seq<char>>,
        env: Option<&OrderedMap<String>>,
        workdir: Option<&str>,
    ) -> Seq<Seq<char>> {
        exec_words(id, cmd, env, workdir)
    }

    open spec fn pull_image_words(&self, reference: Seq<char>) -> Seq<Seq<char>> {
        seq!["image"@, "pull"@, reference]
    }

    open spec fn list_images_words(&self) -> Seq<Seq<char>> {
        seq!["image"@, "list"@, "--format"@, "json"@]
    }

    open spec fn remove_image_words(&self, reference: Seq<char>, force: bool) -> Seq<Seq<char>> {
        seq!["image"@, "delete"@] + flag_if("--force"@, force) + seq![reference]
    }

    open spec fn create_network_words(
        &self,
        name: Seq<char>,
        config: ComposeNetwork,
    ) -> Seq<Seq<char>> {
        seq!["network"@, "create"@] + label_words(config.labels) + seq![name]
    }

    open spec fn remove_network_words(&self, name: Seq<char>) -> Seq<Seq<char>> {
        seq!["network"@, "delete"@, name]
    }

    open spec fn create_volume_words(
        &self,
        name: Seq<char>,
        config: ComposeVolume,
    ) -> Seq<Seq<char>> {
        seq!["volume"@, "create"@] + label_words(config.labels) + seq![name]
    }

    open spec fn remove_volume_words(&self, name: Seq<char>) -> Seq<Seq<char>> {
        seq!["volume"@, "delete"@, name]
    }

    open spec fn list_networks_words(&self) -> Seq<Seq<char>> {
        seq!["network"@, "list"@, "--quiet"@]
    }

    open spec fn list_volumes_words(&self) -> Seq<Seq<char>> {
        seq!["volume"@, "list"@, "--quiet"@]
    }

    open spec fn inspect_network_words(&self, name: Seq<char>) -> Seq<Seq<char>> {
        seq!["network"@, "inspect"@, name]
    }

    open spec fn inspect_volume_words(&self, name: Seq<char>) -> Seq<Seq<char>> {
        seq!["volume"@, "inspect"@, name]
    }

    open spec fn inspect_image_words(&self, reference: Seq<char>) -> Seq<Seq<char>> {
        seq!["image"@, "inspect"@, reference]
    }

    open spec fn build_words(
        &self,
        spec: ComposeServiceBuild,
        image_name: Seq<char>,
    ) -> Seq<Seq<char>> {
        build_words(spec, image_name)
    }

    open spec fn containers_read(
        &self,
        stdout: Seq<char>,
    ) -> std::result::Result<Seq<ContainerInfoView>, ErrorView> {
        Ok(apple_listed(stdout))
    }

    open spec fn container_read(
        &self,
        stdout: Seq<char>,
    ) -> std::result::Result<ContainerInfoView, ErrorView> {
        apple_inspected(stdout)
    }

    open spec fn images_read(
        &self,
        stdout: Seq<char>,
    ) -> std::result::Result<Seq<ImageInfoView>, ErrorView> {
        Ok(apple_images_listed(stdout))
    }

    open spec fn id_read(&self, stdout: Seq<char>) -> std::result::Result<Seq<char>, ErrorView> {
        Ok(trimmed(stdout))
    }

    open spec fn prefix(&self) -> Option<Seq<char>> {
        None
    }

    fn subcommand_prefix(&self) -> (r: Option<&str>) {
        None
    }

    fn capabilities(&self) -> (r: BackendCapabilities) {
        BackendCapabilities::apple()
    }

    fn run_args(&self, spec: &ContainerSpec) -> (r: Vec<String>) {
        let mut args = words2("run", "--detach");
        push_words(&mut args, container_for_apple(spec).as_slice());
        args
    }

    fn create_args(&self, spec: &ContainerSpec) -> (r: Vec<String>) {
        let mut args = no_args();
        push_word(&mut args, "create");
        push_words(&mut args, container_for_apple(spec).as_slice());
        args
    }

    fn start_args(&self, id: &str) -> (r: Vec<String>) {
        words2("start", id)
    }

    fn stop_args(&self, id: &str, timeout: Option<u32>) -> (r: Vec<String>) {
        stop_container(id, timeout)
    }

    fn remove_args(&self, id: &str, force: bool) -> (r: Vec<String>) {
        let mut args = no_args();
        push_word(&mut args, "delete");
        push_if(&mut args, "--force", force);
        push_image(&mut args, id);
        args
    }

    fn list_args(&self, all: bool) -> (r: Vec<String>) {
        let mut args = no_args();
        push_word(&mut args, "list");
        push_word(&mut args, "--format");
        push_word(&mut args, "json");
        push_if(&mut args, "--all", all);
        args
    }

    fn inspect_args(&self, id: &str) -> (r: Vec<String>) {
        words2("inspect", id)
    }

    fn logs_args(&self, id: &str, tail: Option<u32>) -> (r: Vec<String>) {
        let mut args = no_args();
        push_word(&mut args, "logs");
        push_number(&mut args, "-n", tail);
        push_image(&mut args, id);
        args
    }

    fn exec_args(
        &self,
        id: &str,
        cmd: &[String],
        env: Option<&OrderedMap<String>>,
        workdir: Option<&str>,
    ) -> (r: Vec<String>) {
        run_in_container(id, cmd, env, workdir)
    }

    fn pull_image_args(&self, reference: &str) -> (r: Vec<String>) {
        words3("image", "pull", reference)
    }

    fn list_images_args(&self) -> (r: Vec<String>) {
        words4("image", "list", "--format", "json")
    }

    fn remove_image_args(&self, reference: &str, force: bool) -> (r: Vec<String>) {
        let mut args = no_args();
        push_word(&mut args, "image");
        push_word(&mut args, "delete");
        push_if(&mut args, "--force", force);
        push_image(&mut args, reference);
        args
    }

    fn create_network_args(&self, name: &str, config: &ComposeNetwork) -> (r: Vec<String>) {
        let mut args = no_args();
        push_word(&mut args, "network");
        push_word(&mut args, "create");
        push_labels(&mut args, &config.labels);
        push_image(&mut args, name);
        args
    }

    fn remove_network_args(&self, name: &str) -> (r: Vec<String>) {
        words3("network", "delete", name)
    }

    fn create_volume_args(&self, name: &str, config: &ComposeVolume) -> (r: Vec<String>) {
        let mut args = no_args();
        push_word(&mut args, "volume");
        push_word(&mut args, "create");
        push_labels(&mut args, &config.labels);
        push_image(&mut args, name);
        args
    }

    fn remove_volume_args(&self, name: &str) -> (r: Vec<String>) {
        words3("volume", "delete", name)
    }

    fn list_networks_args(&self) -> (r: Vec<String>) {
        words3("network", "list", "--quiet")
    }

    fn list_volumes_args(&self) -> (r: Vec<String>) {
        words3("volume", "list", "--quiet")
    }

    fn inspect_network_args(&self, name: &str) -> (r: Vec<String>) {
        words3("network", "inspect", name)
    }

    fn inspect_volume_args(&self, name: &str) -> (r: Vec<String>) {
        words3("volume", "inspect", name)
    }

    fn inspect_image_args(&self, reference: &str) -> (r: Vec<String>) {
        words3("image", "inspect", reference)
    }

    fn build_args(&self, spec: &ComposeServiceBuild, image_name: &str) -> (r: Vec<String>) {
        build_image(spec, image_name)
    }

    fn security_args(&self, profile: &SecurityProfile) -> (r: Vec<String>) {
        let mut args = no_args();
        push_if(&mut args, "--read-only", profile.read_only_root);
        assert(texts(args@) =~= flag_if("--read-only"@, profile.read_only_root));
        args
    }

    fn parse_list_output(&self, stdout: &str) -> (r: Result<Vec<ContainerInfo>>) {
        Ok(apple_list(stdout))
    }

    fn parse_inspect_output(&self, stdout: &str) -> (r: Result<ContainerInfo>) {
        apple_inspect(stdout)
    }

    fn parse_list_images_output(&self, stdout: &str) -> (r: Result<Vec<ImageInfo>>) {
        Ok(apple_images(stdout))
    }

    fn parse_container_id(&self, stdout: &str) -> (r: Result<String>) {
        Ok(trim(stdout))
    }
}

// ---- Lima ----

/// nerdctl in an instance of Lima.
pub struct LimaProtocol {
    pub instance: String,
}

/// Arguments for nerdctl in an instance of Lima.
pub open spec fn in_instance(instance: Seq<char>, words: Seq<Seq<char>>) -> Seq<Seq<char>> {
    seq!["shell"@, instance, "nerdctl"@] + words
}

impl LimaProtocol {
    fn within(&self, words: Vec<String>) -> (r: Vec<String>)
        ensures
            texts(r@) == in_instance(self.instance@, texts(words@)),
    {
        let mut args = words3("shell", self.instance.as_str(), "nerdctl");
        push_words(&mut args, words.as_slice());
        args
    }
}

impl CliProtocol for LimaProtocol {
    open spec fn run_words(&self, spec: ContainerSpecView) -> Seq<Seq<char>> {
        in_instance(self.instance@, docker_run(spec))
    }

    open spec fn security_words(&self, profile: ProfileView) -> Seq<Seq<char>> {
        docker_security(profile)
    }

    open spec fn table(&self) -> BackendCapabilities {
        lima_table()
    }

    open spec fn create_words(&self, spec: ContainerSpecView) -> Seq<Seq<char>> {
        in_instance(self.instance@, docker_create(spec))
    }

    open spec fn start_words(&self, id: Seq<char>) -> Seq<Seq<char>> {
        in_instance(self.instance@, seq!["start"@, id])
    }

    open spec fn stop_words(&self, id: Seq<char>, timeout: Option<u32>) -> Seq<Seq<char>> {
        in_instance(self.instance@, stop_words(id, timeout))
    }

    open spec fn remove_words(&self, id: Seq<char>, force: bool) -> Seq<Seq<char>> {
        in_instance(self.instance@, seq!["rm"@] + flag_if("-f"@, force) + seq![id])
    }

    open spec fn list_words(&self, all: bool) -> Seq<Seq<char>> {
        in_instance(self.instance@, seq!["ps"@, "--format"@, "json"@] + flag_if("--all"@, all))
    }

    open spec fn inspect_words(&self, id: Seq<char>) -> Seq<Seq<char>> {
        in_instance(self.instance@, seq!["inspect"@, "--format"@, "json"@, id])
    }

    open spec fn logs_words(&self, id: Seq<char>, tail: Option<u32>) -> Seq<Seq<char>> {
        in_instance(self.instance@, seq!["logs"@] + flag_number("--tail"@, tail) + seq![id])
    }

    open spec fn exec_words(
        &self,
        id: Seq<char>,
        cmd: Seq<Seq<char>>,
        env: Option<&OrderedMap<String>>,
        workdir: Option<&str>,
    ) -> Seq<Seq<char>> {
        in_instance(self.instance@, exec_words(id, cmd, env, workdir))
    }

    open spec fn pull_image_words(&self, reference: Seq<char>) -> Seq<Seq<char>> {
        in_instance(self.instance@, seq!["pull"@, reference])
    }

    open spec fn list_images_words(&self) -> Seq<Seq<char>> {
        in_instance(self.instance@, seq!["images"@, "--format"@, "json"@])
    }

    open spec fn remove_image_words(&self, reference: Seq<char>, force: bool) -> Seq<Seq<char>> {
        in_instance(self.instance@, seq!["rmi"@] + flag_if("-f"@, force) + seq![reference])
    }

    open spec fn create_network_words(
        &self,
        name: Seq<char>,
        config: ComposeNetwork,
    ) -> Seq<Seq<char>> {
        in_instance(
            self.instance@,
            seq!["network"@, "create"@]
                + flag_value("--driver"@, text_opt(config.driver))
                + label_words(config.labels)
                + seq![name],
        )
    }

    open spec fn remove_network_words(&self, name: Seq<char>) -> Seq<Seq<char>> {
        in_instance(self.instance@, seq!["network"@, "rm"@, name])
    }

    open spec fn create_volume_words(
        &self,
        name: Seq<char>,
        config: ComposeVolume,
    ) -> Seq<Seq<char>> {
        in_instance(
            self.instance@,
            seq!["volume"@, "create"@]
                + flag_value("--driver"@, text_opt(config.driver))
                + label_words(config.labels)
                + seq![name],
        )
    }

    open spec fn remove_volume_words(&self, name: Seq<char>) -> Seq<Seq<char>> {
        in_instance(self.instance@, seq!["volume"@, "rm"@, name])
    }

    open spec fn list_networks_words(&self) -> Seq<Seq<char>> {
        in_instance(self.instance@, seq!["network"@, "ls"@, "--format"@, "{{.Name}}"@])
    }

    open spec fn list_volumes_words(&self) -> Seq<Seq<char>> {
        in_instance(self.instance@, seq!["volume"@, "ls"@, "--format"@, "{{.Name}}"@])
    }

    open spec fn inspect_network_words(&self, name: Seq<char>) -> Seq<Seq<char>> {
        in_instance(self.instance@, seq!["network"@, "inspect"@, name])
    }

    open spec fn inspect_volume_words(&self, name: Seq<char>) -> Seq<Seq<char>> {
        in_instance(self.instance@, seq!["volume"@, "inspect"@, name])
    }

    open spec fn inspect_image_words(&self, reference: Seq<char>) -> Seq<Seq<char>> {
        in_instance(self.instance@, seq!["inspect"@, "--format"@, "json"@, reference])
    }

    open spec fn build_words(
        &self,
        spec: ComposeServiceBuild,
        image_name: Seq<char>,
    ) -> Seq<Seq<char>> {
        in_instance(self.instance@, build_words(spec, image_name))
    }

    open spec fn containers_read(
        &self,
        stdout: Seq<char>,
    ) -> std::result::Result<Seq<ContainerInfoView>, ErrorView> {
        Ok(listed(lines_of(stdout)))
    }

    open spec fn container_read(
        &self,
        stdout: Seq<char>,
    ) -> std::result::Result<ContainerInfoView, ErrorView> {
        docker_inspected(stdout)
    }

    open spec fn images_read(
        &self,
        stdout: Seq<char>,
    ) -> std::result::Result<Seq<ImageInfoView>, ErrorView> {
        Ok(listed_images(lines_of(stdout)))
    }

    open spec fn id_read(&self, stdout: Seq<char>) -> std::result::Result<Seq<char>, ErrorView> {
        Ok(trimmed(stdout))
    }

    open spec fn prefix(&self) -> Option<Seq<char>> {
        None
    }

    fn subcommand_prefix(&self) -> (r: Option<&str>) {
        None
    }

    fn capabilities(&self) -> (r: BackendCapabilities) {
        BackendCapabilities::lima()
    }

    fn run_args(&self, spec: &ContainerSpec) -> (r: Vec<String>) {
        self.within(DockerProtocol.run_args(spec))
    }

    fn create_args(&self, spec: &ContainerSpec) -> (r: Vec<String>) {
        self.within(DockerProtocol.create_args(spec))
    }

    fn start_args(&self, id: &str) -> (r: Vec<String>) {
        self.within(DockerProtocol.start_args(id))
    }

    fn stop_args(&self, id: &str, timeout: Option<u32>) -> (r: Vec<String>) {
        self.within(DockerProtocol.stop_args(id, timeout))
    }

    fn remove_args(&self, id: &str, force: bool) -> (r: Vec<String>) {
        self.within(DockerProtocol.remove_args(id, force))
    }

    fn list_args(&self, all: bool) -> (r: Vec<String>) {
        self.within(DockerProtocol.list_args(all))
    }

    fn inspect_args(&self, id: &str) -> (r: Vec<String>) {
        self.within(DockerProtocol.inspect_args(id))
    }

    fn logs_args(&self, id: &str, tail: Option<u32>) -> (r: Vec<String>) {
        self.within(DockerProtocol.logs_args(id, tail))
    }

    fn exec_args(
        &self,
        id: &str,
        cmd: &[String],
        env: Option<&OrderedMap<String>>,
        workdir: Option<&str>,
    ) -> (r: Vec<String>) {
        self.within(DockerProtocol.exec_args(id, cmd, env, workdir))
    }

    fn pull_image_args(&self, reference: &str) -> (r: Vec<String>) {
        self.within(DockerProtocol.pull_image_args(reference))
    }

    fn list_images_args(&self) -> (r: Vec<String>) {
        self.within(DockerProtocol.list_images_args())
    }

    fn remove_image_args(&self, reference: &str, force: bool) -> (r: Vec<String>) {
        self.within(DockerProtocol.remove_image_args(reference, force))
    }

    fn create_network_args(&self, name: &str, config: &ComposeNetwork) -> (r: Vec<String>) {
        self.within(DockerProtocol.create_network_args(name, config))
    }

    fn remove_network_args(&self, name: &str) -> (r: Vec<String>) {
        self.within(DockerProtocol.remove_network_args(name))
    }

    fn create_volume_args(&self, name: &str, config: &ComposeVolume) -> (r: Vec<String>) {
        self.within(DockerProtocol.create_volume_args(name, config))
    }

    fn remove_volume_args(&self, name: &str) -> (r: Vec<String>) {
        self.within(DockerProtocol.remove_volume_args(name))
    }

    fn list_networks_args(&self) -> (r: Vec<String>) {
        self.within(DockerProtocol.list_networks_args())
    }

    fn list_volumes_args(&self) -> (r: Vec<String>) {
        self.within(DockerProtocol.list_volumes_args())
    }

    fn inspect_network_args(&self, name: &str) -> (r: Vec<String>) {
        self.within(DockerProtocol.inspect_network_args(name))
    }

    fn inspect_volume_args(&self, name: &str) -> (r: Vec<String>) {
        self.within(DockerProtocol.inspect_volume_args(name))
    }

    fn inspect_image_args(&self, reference: &str) -> (r: Vec<String>) {
        self.within(DockerProtocol.inspect_image_args(reference))
    }

    fn build_args(&self, spec: &ComposeServiceBuild, image_name: &str) -> (r: Vec<String>) {
        self.within(DockerProtocol.build_args(spec, image_name))
    }

    fn security_args(&self, profile: &SecurityProfile) -> (r: Vec<String>) {
        DockerProtocol.security_args(profile)
    }

    fn parse_list_output(&self, stdout: &str) -> (r: Result<Vec<ContainerInfo>>) {
        Ok(docker_list(stdout))
    }

    fn parse_inspect_output(&self, stdout: &str) -> (r: Result<ContainerInfo>) {
        docker_inspect(stdout)
    }

    fn parse_list_images_output(&self, stdout: &str) -> (r: Result<Vec<ImageInfo>>) {
        Ok(docker_images(stdout))
    }

    fn parse_container_id(&self, stdout: &str) -> (r: Result<String>) {
        Ok(trim(stdout))
    }
}

// ---- hardened runs ----

/// Where the image stands among the arguments of a run whose command has
/// `behind` words: at the last word equal to it with that many words behind it.
pub open spec fn image_place(
    words: Seq<Seq<char>>,
    image: Seq<char>,
    behind: nat,
) -> Option<int> {
    if behind <= words.len() {
        words.take(words.len() - behind).index_of_last(image)
    } else {
        None
    }
}

/// Arguments with others put in front of the image.
pub open spec fn before_image(
    words: Seq<Seq<char>>,
    image: Seq<char>,
    behind: nat,
    extra: Seq<Seq<char>>,
) -> Seq<Seq<char>> {
    match image_place(words, image, behind) {
        Some(i) => words.take(i) + extra + words.skip(i),
        None => words,
    }
}

/// Puts arguments in front of the image, which the `behind` words of the command
/// follow.
pub fn insert_before_image(
    args: Vec<String>,
    image: &str,
    behind: usize,
    extra: Vec<String>,
) -> (r: Vec<String>)
    ensures
        texts(r@) == before_image(texts(args@), image@, behind as nat, texts(extra@)),
{
    let ghost all = texts(args@);
    if behind > args.len() {
        return args;
    }
    let mut i: usize = args.len() - behind;
    let ghost front = all.take(i as int);
    proof {
        front.index_of_last_ensures(image@);
    }
    while i > 0
        invariant
            i <= front.len() <= args@.len(),
            all == texts(args@),
            front == all.take(all.len() - behind),
            behind <= all.len(),
            forall|j: int| i <= j < front.len() ==> front[j] != image@,
        decreases i,
    {
        i -= 1;
        assert(front[i as int] == args@[i as int]@);
        if same(args[i].as_str(), image) {
            proof {
                assert(front.contains(image@));
                front.index_of_last_ensures(image@);
                let k = front.index_of_last(image@)->0;
                assert(k == i);
            }
            let mut out = no_args();
            let (head, tail) = args.as_slice().split_at(i);
            push_words(&mut out, head);
            push_words(&mut out, extra.as_slice());
            push_words(&mut out, tail);
            assert(texts(out@) =~= all.take(i as int) + texts(extra@) + all.skip(i as int));
            return out;
        }
    }
    proof {
        if front.contains(image@) {
            let k = choose|k: int| 0 <= k < front.len() && front[k] == image@;
            assert(false);
        }
        front.index_of_last_ensures(image@);
    }
    args
}

/// A container ready to be run: the arguments, the name, and what the runtime
/// could not honour.
pub struct PreparedRun {
    pub args: Vec<String>,
    pub name: Option<String>,
    pub warnings: Vec<NormalizationWarning>,
}

/// The name under which a container is spoken of.
pub open spec fn spoken_name(name: Option<Seq<char>>) -> Seq<char> {
    match name {
        Some(n) => n,
        None => "<unnamed>"@,
    }
}

/// The arguments that run a container with its hardening, as far as the runtime
/// can honour either.
pub fn prepare_run<P: CliProtocol + ?Sized>(
    protocol: &P,
    spec: &ContainerSpec,
    profile: &SecurityProfile,
) -> (r: PreparedRun)
    ensures
        ({
            let caps = protocol.table();
            let container = normalised(caps, spec@);
            &&& texts(r.args@) == before_image(
                protocol.run_words(container),
                container.image,
                words_of(container.cmd).len(),
                protocol.security_words(normalised_profile(caps, profile@)),
            )
            &&& text_opt(r.name) == spec@.name
            &&& warning_views(r.warnings@) == spec_warnings(caps, spoken_name(spec@.name), spec@)
                + profile_warnings(caps, spoken_name(spec@.name), profile@)
        }),
{
    let caps = protocol.capabilities();
    let service = match &spec.name {
        Some(n) => n.as_str(),
        None => "<unnamed>",
    };
    let mut container = spec.clone();
    let mut hardening = profile.clone();
    let mut warnings = normalise_spec_for(&caps, service, &mut container);
    let mut more = normalise_security_profile(&caps, service, &mut hardening);
    let ghost first = warnings@;
    let ghost second = more@;
    warnings.append(&mut more);
    assert(warning_views(warnings@) =~= warning_views(first) + warning_views(second));
    let args = protocol.run_args(&container);
    let extra = protocol.security_args(&hardening);
    let behind: usize = match &container.cmd {
        Some(words) => words.len(),
        None => 0,
    };
    let args = insert_before_image(args, container.image.as_str(), behind, extra);
    PreparedRun { args, name: container.name, warnings }
}

// ---- what the command lines keep ----

/// Hardening stands right before the image wherever the image and the command
/// end the arguments, whatever words stand in front: no option is parted from its
/// value.
pub proof fn lemma_hardening_placed(
    front: Seq<Seq<char>>,
    image: Seq<char>,
    cmd: Seq<Seq<char>>,
    extra: Seq<Seq<char>>,
)
    ensures
        before_image(front + seq![image] + cmd, image, cmd.len(), extra) == front + extra
            + seq![image] + cmd,
{
    let words = front + seq![image] + cmd;
    let head = words.take(words.len() - cmd.len());
    assert(head =~= front + seq![image]);
    assert(head[front.len() as int] == image);
    head.index_of_last_ensures(image);
    assert(image_place(words, image, cmd.len()) == Some(front.len() as int));
    assert(words.take(front.len() as int) =~= front);
    assert(words.skip(front.len() as int) =~= seq![image] + cmd);
    assert(front + extra + (seq![image] + cmd) =~= front + extra + seq![image] + cmd);
}

/// The options of a run: what stands in front of the image and the command.
pub open spec fn run_options(words: Seq<Seq<char>>, s: ContainerSpecView) -> Seq<Seq<char>> {
    words.take(words.len() - words_of(s.cmd).len() - 1)
}

/// Whether the arguments of a run end in the image and the command.
pub open spec fn ends_in_command(words: Seq<Seq<char>>, s: ContainerSpecView) -> bool {
    &&& words_of(s.cmd).len() < words.len()
    &&& words == run_options(words, s) + seq![s.image] + words_of(s.cmd)
}

/// On every runtime a run ends in the image and the command, and its hardening
/// is passed on whole, between the options and the image.
pub proof fn lemma_hardening_passed(
    s: ContainerSpecView,
    instance: Seq<char>,
    extra: Seq<Seq<char>>,
)
    ensures
        ends_in_command(docker_run(s), s),
        ends_in_command(apple_run(s), s),
        ends_in_command(in_instance(instance, docker_run(s)), s),
        forall|words: Seq<Seq<char>>|
            #[trigger] ends_in_command(words, s) ==> before_image(
                words,
                s.image,
                words_of(s.cmd).len(),
                extra,
            ) == run_options(words, s) + extra + seq![s.image] + words_of(s.cmd),
{
    assert(docker_run(s) =~= run_options(docker_run(s), s) + seq![s.image] + words_of(s.cmd));
    assert(apple_run(s) =~= run_options(apple_run(s), s) + seq![s.image] + words_of(s.cmd));
    let inside = in_instance(instance, docker_run(s));
    assert(inside =~= run_options(inside, s) + seq![s.image] + words_of(s.cmd));
    assert forall|words: Seq<Seq<char>>| #[trigger] ends_in_command(words, s) implies before_image(
        words,
        s.image,
        words_of(s.cmd).len(),
        extra,
    ) == run_options(words, s) + extra + seq![s.image] + words_of(s.cmd) by {
        lemma_hardening_placed(run_options(words, s), s.image, words_of(s.cmd), extra);
    }
}

/// Creating a container with the Apple runtime says what running it says, but for
/// detaching.
pub proof fn lemma_create_is_run(s: ContainerSpecView)
    ensures
        apple_create(s) == seq!["create"@] + apple_run(s).skip(2),
{
    let rest = apple_container(s);
    assert((seq!["run"@, "--detach"@] + rest).skip(2) =~= rest);
}

/// The words of two lists in a row.
broadcast proof fn lemma_words_add(a: Seq<Seq<char>>, b: Seq<Seq<char>>)
    ensures
        #[trigger] (a + b).to_multiset() == a.to_multiset().add(b.to_multiset()),
{
    vstd::seq_lib::lemma_multiset_commutative(a, b);
}

/// Nothing is lost in silence. Whatever the Apple runtime is not told of a
/// container or of its hardening is warned of, each by a warning of its own: where
/// there is no warning, it is told in the same words all that Docker is told. The
/// runtimes in the Docker form are told everything, and lose nothing to
/// normalising.
#[verifier::rlimit(30)]
pub proof fn lemma_left_out_is_warned(s: ContainerSpecView, p: ProfileView, service: Seq<char>)
    ensures
        on(s.privileged) ==> spec_warnings(apple_table(), service, s).contains(
            privileged_warning(apple_table(), service),
        ),
        s.network_aliases is Some && s.network_aliases->0.len() > 0 ==> spec_warnings(
            apple_table(),
            service,
            s,
        ).contains(aliases_warning(apple_table(), service)),
        p.seccomp is Some ==> profile_warnings(apple_table(), service, p).contains(
            seccomp_warning(apple_table(), service),
        ),
        p.no_new_privileges ==> profile_warnings(apple_table(), service, p).contains(
            no_new_privileges_warning(apple_table(), service),
        ),
        spec_warnings(apple_table(), service, s).len() == 0 && profile_warnings(
            apple_table(),
            service,
            p,
        ).len() == 0 ==> (apple_run(s) + AppleContainerProtocol.security_words(p)).to_multiset()
            == (docker_run(s) + docker_security(p)).to_multiset(),
        normalised(docker_table(), s) == s,
        normalised_profile(docker_table(), p) == p,
        normalised(podman_table(), s) == s,
        normalised_profile(podman_table(), p) == p,
        normalised(lima_table(), s) == s,
        normalised_profile(lima_table(), p) == p,
{
    broadcast use lemma_words_add;

    let ws = spec_warnings(apple_table(), service, s);
    let ps = profile_warnings(apple_table(), service, p);
    if on(s.privileged) {
        assert(ws[0] == privileged_warning(apple_table(), service));
    }
    if s.network_aliases is Some && s.network_aliases->0.len() > 0 {
        assert(ws[ws.len() - 1] == aliases_warning(apple_table(), service));
    }
    if p.seccomp is Some {
        assert(ps[0] == seccomp_warning(apple_table(), service));
    }
    if p.no_new_privileges {
        assert(ps[ps.len() - 1] == no_new_privileges_warning(apple_table(), service));
    }
    if ws.len() == 0 && ps.len() == 0 {
        assert(AppleContainerProtocol.security_words(p) =~= docker_security(p));
        assert(flag_if("--privileged"@, on(s.privileged)) =~= Seq::empty());
        assert(docker_run(s).to_multiset() =~= apple_run(s).to_multiset());
    }
}

/// What the Apple runtime is told depends neither on privileged mode nor, once
/// its limits are taken into account, on network aliases; its hardening depends
/// on nothing but the root file system.
pub proof fn lemma_apple_limits(
    s: ContainerSpecView,
    privileged: Option<bool>,
    p: ProfileView,
    seccomp: Option<Seq<char>>,
    no_new_privileges: bool,
)
    ensures
        apple_run(s) == apple_run(ContainerSpecView { privileged, ..s }),
        apple_create(s) == apple_create(ContainerSpecView { privileged, ..s }),
        apple_run(normalised(apple_table(), s)) == apple_run(
            ContainerSpecView { network_aliases: None, ..s },
        ),
        AppleContainerProtocol.security_words(p) == AppleContainerProtocol.security_words(
            ProfileView { seccomp, no_new_privileges, ..p },
        ),
{
    if s.network_aliases is Some && s.network_aliases->0.len() == 0 {
        assert(flag_each("--network-alias"@, s.network_aliases) =~= Seq::empty());
    }
}

} // verus!
