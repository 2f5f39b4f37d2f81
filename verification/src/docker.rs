//! Tools for driving Docker.
//!
//! A [`DockerBuilder`] gathers what one run of the agent needs: the image,
//! the volumes, the published ports and the arguments. It is made from the
//! outcome of an analysis run and turned into a command line once.

use vstd::prelude::*;
use crate::mapper::{
    map_pieces, mapped_arguments, MappedArgumentsView, PathError, PathErrorView, Resolution,
    ResolutionView, resolution_views,
};
use crate::mounts::{distinct_host_dirs, volume_views, DockerVolume, VolumeView};
use crate::protocol::{
    port_views, version_supported, ArgsProtocolData, ArgsProtocolPortInfo, PayloadView, PortView,
    SUPPORTED_ARGS_PROTOCOL_VERSION,
};
use crate::text::{decimal, decimal_string, signed_decimal, signed_decimal_string, texts};

verus! {

/// The program that runs containers.
pub const DOCKER_COMMAND: &'static str = "docker";

/// The image that holds the agent.
pub const DEFAULT_IMAGE_NAME: &'static str = "aasworldwidetelescope/aligner:latest";

/// The agent's program inside the image.
pub const DEFAULT_INNER_COMMAND: &'static str = "wwt-aligner-agent";

/// The flag that makes the agent describe its arguments instead of acting
/// on them.
pub const ANALYZE_ARGS_FLAG: &'static str = "--x-analyze-args-mode";

/// The exit code with which the agent says that it has rejected its
/// arguments and has told the user so itself.
pub const USAGE_ERROR_EXIT_CODE: i32 = 2;

/// A program and its arguments, ready to be run.
#[derive(Debug, Clone, PartialEq, Eq)]
pub struct DockerCommand {
    pub program: String,
    pub args: Vec<String>,
}

/// The mathematical content of a [`DockerCommand`].
pub struct CommandView {
    pub program: Seq<char>,
    pub args: Seq<Seq<char>>,
}

impl View for DockerCommand {
    type V = CommandView;

    open spec fn view(&self) -> CommandView {
        CommandView { program: self.program@, args: texts(self.args@) }
    }
}

/// A port of the container published on the host.
#[derive(Debug, Clone, PartialEq, Eq)]
pub struct DockerPort {
    pub host_ip: String,
    pub host_port: u16,
    pub container_port: u16,
}

impl View for DockerPort {
    type V = PortView;

    open spec fn view(&self) -> PortView {
        PortView {
            host_ip: self.host_ip@,
            host_port: self.host_port,
            container_port: self.container_port,
        }
    }
}

/// The views of a sequence of published ports, element by element.
pub open spec fn docker_port_views(ports: Seq<DockerPort>) -> Seq<PortView> {
    ports.map_values(|p: DockerPort| p@)
}

impl From<ArgsProtocolPortInfo> for DockerPort {
    fn from(ap: ArgsProtocolPortInfo) -> (port: DockerPort) {
        DockerPort { host_ip: ap.host_ip, host_port: ap.host_port, container_port: ap.container_port }
    }
}

impl vstd::std_specs::convert::FromSpecImpl<ArgsProtocolPortInfo> for DockerPort {
    open spec fn obeys_from_spec() -> bool {
        true
    }

    open spec fn from_spec(ap: ArgsProtocolPortInfo) -> DockerPort {
        DockerPort { host_ip: ap.host_ip, host_port: ap.host_port, container_port: ap.container_port }
    }
}

/// Helper for constructing Docker command lines.
#[derive(Debug)]
pub struct DockerBuilder {
    image_name: String,
    volumes: Vec<DockerVolume>,
    ports: Vec<DockerPort>,
    inner_args: Vec<String>,
}

/// The mathematical content of a [`DockerBuilder`].
pub struct BuilderView {
    pub image_name: Seq<char>,
    pub volumes: Seq<VolumeView>,
    pub ports: Seq<PortView>,
    pub inner_args: Seq<Seq<char>>,
}

impl View for DockerBuilder {
    type V = BuilderView;

    closed spec fn view(&self) -> BuilderView {
        BuilderView {
            image_name: self.image_name@,
            volumes: volume_views(self.volumes@),
            ports: docker_port_views(self.ports@),
            inner_args: texts(self.inner_args@),
        }
    }
}

/// The builder that has nothing but the default image.
pub open spec fn default_builder() -> BuilderView {
    BuilderView {
        image_name: DEFAULT_IMAGE_NAME@,
        volumes: Seq::empty(),
        ports: Seq::empty(),
        inner_args: Seq::empty(),
    }
}

impl Default for DockerBuilder {
    fn default() -> (builder: Self)
        ensures
            builder@ == default_builder(),
            builder.wf(),
    {
        let builder = DockerBuilder {
            image_name: DEFAULT_IMAGE_NAME.to_owned(),
            volumes: Vec::new(),
            ports: Vec::new(),
            inner_args: Vec::new(),
        };
        assert(builder@.volumes =~= Seq::<VolumeView>::empty());
        assert(builder@.ports =~= Seq::<PortView>::empty());
        assert(builder@.inner_args =~= Seq::<Seq<char>>::empty());
        builder
    }
}

impl DockerBuilder {
    /// A builder is well formed when no host directory is mounted twice.
    pub open spec fn wf(&self) -> bool {
        distinct_host_dirs(self@.volumes)
    }

    /// Adds an argument for the program inside the container.
    pub fn arg(&mut self, arg: &str) -> (ret: &mut Self)
        ensures
            ret@ == (BuilderView { inner_args: old(self)@.inner_args.push(arg@), ..old(self)@ }),
            *final(self) == *final(ret),
    {
        self.inner_args.push(arg.to_owned());
        assert(texts(self.inner_args@) =~= texts(old(self).inner_args@).push(arg@));
        self
    }
}

/// What the exit of an analysis run asks for.
#[derive(Debug, Clone, Copy, PartialEq, Eq)]
pub enum AnalysisExit {
    /// The agent has written the description of its arguments: decode it.
    Decode,
    /// The agent has rejected the arguments and has said so itself: leave
    /// with this code and add nothing.
    EarlyExit(i32),
    /// The run failed, with this exit code if it had one.
    Failed(Option<i32>),
}

/// What the exit of an analysis run asks for: code 0 gives a description to
/// decode, the code for a usage error is passed on, and anything else,
/// a run without an exit code included, is a failure.
pub open spec fn analysis_exit(exit_code: Option<i32>) -> AnalysisExit {
    if exit_code == Some(0i32) {
        AnalysisExit::Decode
    } else if exit_code == Some(USAGE_ERROR_EXIT_CODE) {
        AnalysisExit::EarlyExit(USAGE_ERROR_EXIT_CODE)
    } else {
        AnalysisExit::Failed(exit_code)
    }
}

/// Says what the exit of an analysis run asks for.
pub fn classify_analysis_exit(exit_code: Option<i32>) -> (exit: AnalysisExit)
    ensures
        exit == analysis_exit(exit_code),
{
    match exit_code {
        Some(code) => {
            if code == 0 {
                AnalysisExit::Decode
            } else if code == USAGE_ERROR_EXIT_CODE {
                AnalysisExit::EarlyExit(code)
            } else {
                AnalysisExit::Failed(exit_code)
            }
        },
        None => AnalysisExit::Failed(exit_code),
    }
}

/// Why an analysis gave no builder.
#[derive(Debug, Clone, PartialEq, Eq)]
pub enum AnalysisError {
    /// The analysis run failed, with this exit code if it had one.
    CommandFailed { code: Option<i32> },
    /// What the agent wrote is no args protocol payload.
    MalformedPayload,
    /// The payload is of a later version than this crate understands.
    UpgradeRequired { version: usize },
    /// A path argument cannot be mapped.
    Path(PathError),
}

/// The mathematical content of an [`AnalysisError`].
pub enum AnalysisErrorView {
    CommandFailed { code: Option<i32> },
    MalformedPayload,
    UpgradeRequired { version: nat },
    Path(PathErrorView),
}

impl View for AnalysisError {
    type V = AnalysisErrorView;

    open spec fn view(&self) -> AnalysisErrorView {
        match self {
            AnalysisError::CommandFailed { code } => AnalysisErrorView::CommandFailed { code: *code },
            AnalysisError::MalformedPayload => AnalysisErrorView::MalformedPayload,
            AnalysisError::UpgradeRequired { version } => AnalysisErrorView::UpgradeRequired {
                version: *version as nat,
            },
            AnalysisError::Path(error) => AnalysisErrorView::Path(error@),
        }
    }
}

/// The message for the user that belongs to an error.
pub open spec fn error_message(error: AnalysisErrorView) -> Seq<char> {
    match error {
        AnalysisErrorView::CommandFailed { code: Some(code) } =>
            "the Docker command signaled failure (error code "@ + signed_decimal(code as int)
            + ")"@,
        AnalysisErrorView::CommandFailed { code: None } => "the Docker command exited unexpectedly"@,
        AnalysisErrorView::MalformedPayload =>
            "internal error: failed to parse args-analysis output as JSON text"@,
        AnalysisErrorView::UpgradeRequired { .. } =>
            "you must upgrade the launcher in order to use this version of the aligner"@,
        AnalysisErrorView::Path(error) => crate::mapper::message_head(error.kind) + error.argument
            + crate::mapper::message_tail(error.kind),
    }
}

impl AnalysisError {
    /// A message for the user that names the condition or the offending
    /// argument.
    pub fn message(&self) -> (text: String)
        ensures
            text@ == error_message(self@),
    {
        match self {
            AnalysisError::CommandFailed { code: Some(code) } => {
                let mut text = "the Docker command signaled failure (error code ".to_owned();
                text.append(signed_decimal_string(*code).as_str());
                text.append(")");
                text
            },
            AnalysisError::CommandFailed { code: None } => {
                "the Docker command exited unexpectedly".to_owned()
            },
            AnalysisError::MalformedPayload => {
                "internal error: failed to parse args-analysis output as JSON text".to_owned()
            },
            AnalysisError::UpgradeRequired { .. } => {
                "you must upgrade the launcher in order to use this version of the aligner".to_owned()
            },
            AnalysisError::Path(error) => error.message(),
        }
    }
}

/// How an analysis ended when it did not fail: with a builder for the real
/// run, or with the exit code of a usage error that is passed on.
#[derive(Debug)]
pub enum AnalysisOutcome {
    Continue(DockerBuilder),
    EarlyExit(i32),
}

/// The mathematical content of an [`AnalysisOutcome`].
pub enum AnalysisOutcomeView {
    Continue(BuilderView),
    EarlyExit(i32),
}

impl View for AnalysisOutcome {
    type V = AnalysisOutcomeView;

    closed spec fn view(&self) -> AnalysisOutcomeView {
        match self {
            AnalysisOutcome::Continue(builder) => AnalysisOutcomeView::Continue(builder@),
            AnalysisOutcome::EarlyExit(code) => AnalysisOutcomeView::EarlyExit(*code),
        }
    }
}

impl AnalysisOutcome {
    /// Whether the builder, if there is one, is well formed.
    pub closed spec fn wf(&self) -> bool {
        match self {
            AnalysisOutcome::Continue(builder) => builder.wf(),
            AnalysisOutcome::EarlyExit(_) => true,
        }
    }

    /// The exit code to pass on, if the analysis ended early.
    pub fn early_exit(&self) -> (code: Option<i32>)
        ensures
            code == match self@ {
                AnalysisOutcomeView::Continue(_) => None::<i32>,
                AnalysisOutcomeView::EarlyExit(code) => Some(code),
            },
    {
        match self {
            AnalysisOutcome::Continue(_) => None,
            AnalysisOutcome::EarlyExit(code) => Some(*code),
        }
    }

    /// The builder for the real run, if the analysis gave one.
    pub fn into_builder(self) -> (builder: Option<DockerBuilder>)
        ensures
            match self@ {
                AnalysisOutcomeView::Continue(view) => builder is Some && builder->0@ == view && (
                self.wf() ==> builder->0.wf()),
                AnalysisOutcomeView::EarlyExit(_) => builder is None,
            },
    {
        match self {
            AnalysisOutcome::Continue(builder) => Some(builder),
            AnalysisOutcome::EarlyExit(_) => None,
        }
    }
}

/// The builder for a mapped command line: the default image, the mounts,
/// the ports, and as arguments the agent's program, then the extra
/// arguments for the path pieces, then the arguments proper.
pub open spec fn builder_for(mapped: MappedArgumentsView, ports: Seq<PortView>) -> BuilderView {
    BuilderView {
        image_name: DEFAULT_IMAGE_NAME@,
        volumes: mapped.volumes,
        ports,
        inner_args: seq![DEFAULT_INNER_COMMAND@] + mapped.side_args + mapped.args,
    }
}

/// How an analysis ends, given the exit code of the analysis run, the
/// payload decoded from its output if that could be decoded, and what came
/// of resolving the path of each piece.
///
/// The exit code is looked at first, then the payload, then its version, and
/// the pieces are mapped only when all of these are in order.
pub open spec fn analyzed(
    exit_code: Option<i32>,
    payload: Option<PayloadView>,
    resolutions: Seq<ResolutionView>,
) -> Result<AnalysisOutcomeView, AnalysisErrorView> {
    match analysis_exit(exit_code) {
        AnalysisExit::EarlyExit(code) => Ok(AnalysisOutcomeView::EarlyExit(code)),
        AnalysisExit::Failed(code) => Err(AnalysisErrorView::CommandFailed { code }),
        AnalysisExit::Decode => match payload {
            None => Err(AnalysisErrorView::MalformedPayload),
            Some(data) => if !version_supported(data.version) {
                Err(AnalysisErrorView::UpgradeRequired { version: data.version })
            } else {
                match mapped_arguments(data.pieces, resolutions) {
                    Err(error) => Err(AnalysisErrorView::Path(error)),
                    Ok(mapped) => Ok(
                        AnalysisOutcomeView::Continue(builder_for(mapped, data.published_ports)),
                    ),
                }
            },
        },
    }
}

/// A payload of a later version than this crate understands is refused,
/// whatever its pieces are and however their paths resolve: no mount and no
/// command is built from it.
pub proof fn lemma_version_gate(payload: PayloadView, resolutions: Seq<ResolutionView>)
    requires
        payload.version > SUPPORTED_ARGS_PROTOCOL_VERSION,
    ensures
        analyzed(Some(0i32), Some(payload), resolutions) == Err::<
            AnalysisOutcomeView,
            AnalysisErrorView,
        >(AnalysisErrorView::UpgradeRequired { version: payload.version }),
{
}

/// An analysis run that ends with the code for a usage error is passed on
/// with that code, whatever else is given: no piece is mapped and nothing is
/// built.
pub proof fn lemma_usage_error_passes_through(
    payload: Option<PayloadView>,
    resolutions: Seq<ResolutionView>,
)
    ensures
        analyzed(Some(USAGE_ERROR_EXIT_CODE), payload, resolutions) == Ok::<
            AnalysisOutcomeView,
            AnalysisErrorView,
        >(AnalysisOutcomeView::EarlyExit(USAGE_ERROR_EXIT_CODE)),
{
}

/// A builder is made only from an analysis run that ended with code 0, a
/// payload that decodes and is of a supported version, and pieces that can
/// all be mapped; its volumes are then those of the mapped pieces.
pub proof fn lemma_builder_only_after_success(
    exit_code: Option<i32>,
    payload: Option<PayloadView>,
    resolutions: Seq<ResolutionView>,
)
    ensures
        analyzed(exit_code, payload, resolutions) matches Ok(AnalysisOutcomeView::Continue(builder))
            ==> {
            &&& exit_code == Some(0i32)
            &&& payload matches Some(data)
            &&& version_supported(data.version)
            &&& mapped_arguments(data.pieces, resolutions) matches Ok(mapped)
            &&& builder == builder_for(mapped, data.published_ports)
        },
{
}

/// The arguments that make Docker run the agent in analysis mode on `args`.
pub open spec fn analysis_args(args: Seq<Seq<char>>) -> Seq<Seq<char>> {
    seq!["run"@, "--rm"@, DEFAULT_IMAGE_NAME@, DEFAULT_INNER_COMMAND@, ANALYZE_ARGS_FLAG@] + args
}

/// The command that runs the agent in analysis mode on the arguments that
/// the user meant for it. The agent then describes the arguments and
/// changes nothing.
pub fn analysis_command(args: &Vec<String>) -> (command: DockerCommand)
    ensures
        command@ == (CommandView { program: DOCKER_COMMAND@, args: analysis_args(texts(args@)) }),
{
    let mut out: Vec<String> = Vec::new();
    out.push("run".to_owned());
    out.push("--rm".to_owned());
    out.push(DEFAULT_IMAGE_NAME.to_owned());
    out.push(DEFAULT_INNER_COMMAND.to_owned());
    out.push(ANALYZE_ARGS_FLAG.to_owned());
    assert(texts(out@) =~= analysis_args(Seq::empty()));
    append_texts(&mut out, args);
    assert(texts(out@) =~= analysis_args(texts(args@)));
    DockerCommand { program: DOCKER_COMMAND.to_owned(), args: out }
}

/// Appends copies of `more` to `out`.
fn append_texts(out: &mut Vec<String>, more: &Vec<String>)
    ensures
        texts(final(out)@) == texts(old(out)@) + texts(more@),
{
    let ghost before = texts(out@);
    let mut i: usize = 0;
    assert(texts(out@) =~= before + texts(more@).take(0));
    while i < more.len()
        invariant
            i <= more.len(),
            texts(out@) == before + texts(more@).take(i as int),
        decreases more.len() - i,
    {
        let ghost sofar = texts(out@);
        out.push(more[i].clone());
        assert(texts(out@) =~= sofar.push(more@[i as int]@));
        assert(texts(more@).take(i + 1) =~= texts(more@).take(i as int).push(more@[i as int]@));
        i += 1;
    }
    assert(texts(more@).take(more.len() as int) =~= texts(more@));
}

/// Generates the command that updates the Docker image.
pub fn update_command() -> (command: DockerCommand)
    ensures
        command@ == (CommandView {
            program: DOCKER_COMMAND@,
            args: seq!["pull"@, DEFAULT_IMAGE_NAME@],
        }),
{
    let mut args: Vec<String> = Vec::new();
    args.push("pull".to_owned());
    args.push(DEFAULT_IMAGE_NAME.to_owned());
    assert(texts(args@) =~= seq!["pull"@, DEFAULT_IMAGE_NAME@]);
    DockerCommand { program: DOCKER_COMMAND.to_owned(), args }
}

/// The mount flag of a volume: the host directory, the container directory
/// and `rw` or `ro`, with colons between them.
pub open spec fn volume_flag(volume: VolumeView) -> Seq<char> {
    volume.host_path.push(':') + volume.container_path.push(':') + (if volume.read_write {
        "rw"@
    } else {
        "ro"@
    })
}

/// The arguments that mount `volumes`: `-v` and the mount flag for each, in
/// order.
pub open spec fn volume_args(volumes: Seq<VolumeView>) -> Seq<Seq<char>>
    decreases volumes.len(),
{
    if volumes.len() == 0 {
        Seq::empty()
    } else {
        volume_args(volumes.drop_last()) + seq!["-v"@, volume_flag(volumes.last())]
    }
}

/// The publish flag of a port: the host address, the host port and the
/// container port, with colons between them.
pub open spec fn port_flag(port: PortView) -> Seq<char> {
    port.host_ip.push(':') + decimal(port.host_port as nat).push(':') + decimal(
        port.container_port as nat,
    )
}

/// The arguments that publish `ports`: `-p` and the publish flag for each,
/// in order.
pub open spec fn port_args(ports: Seq<PortView>) -> Seq<Seq<char>>
    decreases ports.len(),
{
    if ports.len() == 0 {
        Seq::empty()
    } else {
        port_args(ports.drop_last()) + seq!["-p"@, port_flag(ports.last())]
    }
}

/// The arguments that tell the container who runs it, so that the files it
/// creates on a volume belong to that user.
pub open spec fn identity_args(uid: u32, gid: u32) -> Seq<Seq<char>> {
    seq![
        "-e"@,
        "HOST_UID="@ + decimal(uid as nat),
        "-e"@,
        "HOST_GID="@ + decimal(gid as nat),
    ]
}

/// The arguments of the real run: the fixed flags, the volumes, the ports,
/// the identity of the user, the image, and the arguments for the agent.
pub open spec fn run_args(builder: BuilderView, uid: u32, gid: u32) -> Seq<Seq<char>> {
    seq!["run"@, "--rm"@, "-it"@] + volume_args(builder.volumes) + port_args(builder.ports)
        + identity_args(uid, gid) + seq![builder.image_name] + builder.inner_args
}

/// The command of the real run for the user `uid` of the group `gid`.
pub open spec fn run_command(builder: BuilderView, uid: u32, gid: u32) -> CommandView {
    CommandView { program: DOCKER_COMMAND@, args: run_args(builder, uid, gid) }
}

/// The views of a payload that may be missing.
pub open spec fn payload_view(payload: Option<ArgsProtocolData>) -> Option<PayloadView> {
    match payload {
        Some(data) => Some(data@),
        None => None,
    }
}

/// `nix::unistd::geteuid`: the effective user id of the calling process.
/// Nothing is claimed of the number: it is whatever the system says.
#[verifier::external_body]
fn effective_user_id() -> u32 {
    nix::unistd::geteuid().as_raw()
}

/// `nix::unistd::getegid`: the effective group id of the calling process.
/// Nothing is claimed of the number: it is whatever the system says.
#[verifier::external_body]
fn effective_group_id() -> u32 {
    nix::unistd::getegid().as_raw()
}

fn volume_flag_for(volume: &DockerVolume) -> (flag: String)
    ensures
        flag@ == volume_flag(volume@),
{
    let mut flag = volume.host_path.clone();
    flag.push(':');
    flag.append(volume.container_path.as_str());
    flag.push(':');
    flag.append(
        if volume.read_write {
            "rw"
        } else {
            "ro"
        },
    );
    assert(flag@ =~= volume_flag(volume@));
    flag
}

fn port_flag_for(port: &DockerPort) -> (flag: String)
    ensures
        flag@ == port_flag(port@),
{
    let mut flag = port.host_ip.clone();
    flag.push(':');
    flag.append(decimal_string(port.host_port as u64).as_str());
    flag.push(':');
    flag.append(decimal_string(port.container_port as u64).as_str());
    assert(flag@ =~= port_flag(port@));
    flag
}

fn identity_variable(name: &str, id: u32) -> (variable: String)
    ensures
        variable@ == name@ + decimal(id as nat),
{
    let mut variable = name.to_owned();
    variable.append(decimal_string(id as u64).as_str());
    variable
}

impl DockerBuilder {
    /// Makes the builder for the real run from the outcome of an analysis
    /// run.
    ///
    /// `exit_code` is the exit code of the analysis run, or `None` if it
    /// ended without one. `payload` is what its output decodes to, or `None`
    /// if it does not decode. `resolutions` holds for each piece of the
    /// payload, at the piece's position, what came of resolving the path
    /// that [`crate::mapper::resolution_request`] names for it.
    ///
    /// A usage error of the agent is no failure: its exit code is passed on
    /// and nothing is built. A payload of a later version than this crate
    /// understands is refused before any of its pieces is looked at.
    pub fn for_analyzed_command(
        exit_code: Option<i32>,
        payload: Option<ArgsProtocolData>,
        resolutions: &Vec<Resolution>,
    ) -> (r: Result<AnalysisOutcome, AnalysisError>)
        ensures
            match r {
                Ok(outcome) => {
                    &&& analyzed(exit_code, payload_view(payload), resolution_views(resolutions@))
                        == Ok::<AnalysisOutcomeView, AnalysisErrorView>(outcome@)
                    &&& outcome.wf()
                },
                Err(error) => analyzed(
                    exit_code,
                    payload_view(payload),
                    resolution_views(resolutions@),
                ) == Err::<AnalysisOutcomeView, AnalysisErrorView>(error@),
            },
    {
        match classify_analysis_exit(exit_code) {
            AnalysisExit::EarlyExit(code) => {
                return Ok(AnalysisOutcome::EarlyExit(code));
            },
            AnalysisExit::Failed(code) => {
                return Err(AnalysisError::CommandFailed { code });
            },
            AnalysisExit::Decode => {},
        }
        let data = match payload {
            None => {
                return Err(AnalysisError::MalformedPayload);
            },
            Some(data) => data,
        };
        if !data.is_supported() {
            return Err(AnalysisError::UpgradeRequired { version: data.version });
        }
        let mapped = match map_pieces(&data.pieces, resolutions) {
            Err(error) => {
                return Err(AnalysisError::Path(error));
            },
            Ok(mapped) => mapped,
        };
        let mut inner_args: Vec<String> = Vec::new();
        inner_args.push(DEFAULT_INNER_COMMAND.to_owned());
        assert(texts(inner_args@) =~= seq![DEFAULT_INNER_COMMAND@]);
        append_texts(&mut inner_args, &mapped.side_args);
        append_texts(&mut inner_args, &mapped.args);
        let mut ports: Vec<DockerPort> = Vec::new();
        let mut i: usize = 0;
        assert(docker_port_views(ports@) =~= port_views(data.published_ports@).take(0));
        while i < data.published_ports.len()
            invariant
                i <= data.published_ports.len(),
                docker_port_views(ports@) == port_views(data.published_ports@).take(i as int),
            decreases data.published_ports.len() - i,
        {
            let ghost sofar = docker_port_views(ports@);
            let port = &data.published_ports[i];
            let copy = ArgsProtocolPortInfo {
                host_ip: port.host_ip.clone(),
                host_port: port.host_port,
                container_port: port.container_port,
            };
            ports.push(DockerPort::from(copy));
            assert(docker_port_views(ports@) =~= sofar.push(port@));
            assert(port_views(data.published_ports@).take(i + 1) =~= port_views(
                data.published_ports@,
            ).take(i as int).push(port@));
            i += 1;
        }
        assert(port_views(data.published_ports@).take(i as int) =~= port_views(
            data.published_ports@,
        ));
        let builder = DockerBuilder {
            image_name: DEFAULT_IMAGE_NAME.to_owned(),
            volumes: mapped.volumes,
            ports,
            inner_args,
        };
        Ok(AnalysisOutcome::Continue(builder))
    }

    /// Turns the builder into the command of the real run, for the user and
    /// the group that the calling process runs as.
    pub fn into_command(self) -> (command: DockerCommand)
        ensures
            exists|uid: u32, gid: u32| command@ == run_command(self@, uid, gid),
    {
        let uid = effective_user_id();
        let gid = effective_group_id();
        self.into_command_for(uid, gid)
    }

    /// Turns the builder into the command of the real run for the user
    /// `uid` of the group `gid`.
    pub fn into_command_for(self, uid: u32, gid: u32) -> (command: DockerCommand)
        ensures
            command@ == run_command(self@, uid, gid),
    {
        let mut args: Vec<String> = Vec::new();
        args.push("run".to_owned());
        args.push("--rm".to_owned());
        args.push("-it".to_owned());
        let ghost head = seq!["run"@, "--rm"@, "-it"@];
        assert(texts(args@) =~= head + volume_args(self@.volumes.take(0)));
        let mut i: usize = 0;
        while i < self.volumes.len()
            invariant
                i <= self.volumes.len(),
                texts(args@) == head + volume_args(self@.volumes.take(i as int)),
            decreases self.volumes.len() - i,
        {
            let ghost sofar = texts(args@);
            args.push("-v".to_owned());
            args.push(volume_flag_for(&self.volumes[i]));
            proof {
                let upto = self@.volumes.take(i + 1);
                assert(upto.drop_last() =~= self@.volumes.take(i as int));
                assert(upto.last() == self.volumes@[i as int]@);
                assert(texts(args@) =~= sofar + seq!["-v"@, volume_flag(self.volumes@[i as int]@)]);
            }
            i += 1;
        }
        let ghost mounted = head + volume_args(self@.volumes);
        assert(self@.volumes.take(i as int) =~= self@.volumes);
        assert(texts(args@) =~= mounted + port_args(self@.ports.take(0)));
        let mut j: usize = 0;
        while j < self.ports.len()
            invariant
                j <= self.ports.len(),
                texts(args@) == mounted + port_args(self@.ports.take(j as int)),
            decreases self.ports.len() - j,
        {
            let ghost sofar = texts(args@);
            args.push("-p".to_owned());
            args.push(port_flag_for(&self.ports[j]));
            proof {
                let upto = self@.ports.take(j + 1);
                assert(upto.drop_last() =~= self@.ports.take(j as int));
                assert(upto.last() == self.ports@[j as int]@);
                assert(texts(args@) =~= sofar + seq!["-p"@, port_flag(self.ports@[j as int]@)]);
            }
            j += 1;
        }
        let ghost published = mounted + port_args(self@.ports);
        assert(self@.ports.take(j as int) =~= self@.ports);
        args.push("-e".to_owned());
        args.push(identity_variable("HOST_UID=", uid));
        args.push("-e".to_owned());
        args.push(identity_variable("HOST_GID=", gid));
        args.push(self.image_name.clone());
        assert(texts(args@) =~= published + identity_args(uid, gid) + seq![self@.image_name]);
        append_texts(&mut args, &self.inner_args);
        DockerCommand { program: DOCKER_COMMAND.to_owned(), args }
    }
}

} // verus!
