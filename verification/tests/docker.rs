use aligner_frontend::docker::{
    analysis_command, classify_analysis_exit, update_command, AnalysisError, AnalysisExit,
    AnalysisOutcome, DockerBuilder, DockerCommand, DockerPort, ANALYZE_ARGS_FLAG,
    DEFAULT_IMAGE_NAME, DEFAULT_INNER_COMMAND, DOCKER_COMMAND, USAGE_ERROR_EXIT_CODE,
};
use aligner_frontend::mapper::{PathError, PathErrorKind, Resolution};
use aligner_frontend::protocol::{
    ArgsProtocolData, ArgsProtocolPieceInfo, ArgsProtocolPortInfo, SUPPORTED_ARGS_PROTOCOL_VERSION,
};

fn piece(text: &str, incomplete: bool, pre_exists: bool, created: bool) -> ArgsProtocolPieceInfo {
    ArgsProtocolPieceInfo {
        text: text.to_string(),
        incomplete,
        path_pre_exists: pre_exists,
        path_created: created,
    }
}

fn payload(version: usize, pieces: Vec<ArgsProtocolPieceInfo>) -> ArgsProtocolData {
    ArgsProtocolData { version, pieces, published_ports: Vec::new() }
}

fn canonical(path: &str) -> Resolution {
    Resolution::Canonical(path.to_string())
}

fn strings(items: &[&str]) -> Vec<String> {
    items.iter().map(|s| s.to_string()).collect()
}

fn builder_of(outcome: AnalysisOutcome) -> DockerBuilder {
    assert_eq!(outcome.early_exit(), None);
    outcome.into_builder().unwrap()
}

fn analyze(
    exit_code: Option<i32>,
    data: Option<ArgsProtocolData>,
    resolutions: Vec<Resolution>,
) -> Result<Vec<String>, AnalysisError> {
    match DockerBuilder::for_analyzed_command(exit_code, data, &resolutions) {
        Ok(outcome) => Ok(builder_of(outcome).into_command_for(1000, 100).args),
        Err(error) => Err(error),
    }
}

#[test]
fn names_of_the_docker_side() {
    assert_eq!(DOCKER_COMMAND, "docker");
    assert_eq!(DEFAULT_IMAGE_NAME, "aasworldwidetelescope/aligner:latest");
    assert_eq!(DEFAULT_INNER_COMMAND, "wwt-aligner-agent");
    assert_eq!(ANALYZE_ARGS_FLAG, "--x-analyze-args-mode");
    assert_eq!(USAGE_ERROR_EXIT_CODE, 2);
}

#[test]
fn analysis_command_puts_the_flag_before_the_arguments() {
    let command = analysis_command(&strings(&["solve", "--in", "a b.fits"]));
    assert_eq!(
        command,
        DockerCommand {
            program: "docker".to_string(),
            args: strings(&[
                "run",
                "--rm",
                "aasworldwidetelescope/aligner:latest",
                "wwt-aligner-agent",
                "--x-analyze-args-mode",
                "solve",
                "--in",
                "a b.fits",
            ]),
        }
    );
}

#[test]
fn analysis_command_without_arguments() {
    let command = analysis_command(&Vec::new());
    assert_eq!(command.program, "docker");
    assert_eq!(
        command.args,
        strings(&[
            "run",
            "--rm",
            "aasworldwidetelescope/aligner:latest",
            "wwt-aligner-agent",
            "--x-analyze-args-mode",
        ])
    );
}

#[test]
fn update_command_pulls_the_image() {
    assert_eq!(
        update_command(),
        DockerCommand {
            program: "docker".to_string(),
            args: strings(&["pull", "aasworldwidetelescope/aligner:latest"]),
        }
    );
}

#[test]
fn analysis_exit_codes() {
    assert_eq!(classify_analysis_exit(Some(0)), AnalysisExit::Decode);
    assert_eq!(classify_analysis_exit(Some(2)), AnalysisExit::EarlyExit(2));
    assert_eq!(classify_analysis_exit(Some(1)), AnalysisExit::Failed(Some(1)));
    assert_eq!(classify_analysis_exit(Some(3)), AnalysisExit::Failed(Some(3)));
    assert_eq!(classify_analysis_exit(Some(-2)), AnalysisExit::Failed(Some(-2)));
    assert_eq!(classify_analysis_exit(Some(137)), AnalysisExit::Failed(Some(137)));
    assert_eq!(classify_analysis_exit(None), AnalysisExit::Failed(None));
}

#[test]
fn usage_error_is_passed_on_without_building() {
    let outcome = DockerBuilder::for_analyzed_command(Some(2), None, &Vec::new()).unwrap();
    assert_eq!(outcome.early_exit(), Some(2));
    assert!(outcome.into_builder().is_none());
}

#[test]
fn usage_error_is_passed_on_whatever_else_is_given() {
    let data = payload(7, vec![piece("gone", false, true, false)]);
    let outcome =
        DockerBuilder::for_analyzed_command(Some(2), Some(data), &vec![Resolution::Missing])
            .unwrap();
    assert_eq!(outcome.early_exit(), Some(2));
}

#[test]
fn failed_analysis_run() {
    assert_eq!(
        analyze(Some(1), None, Vec::new()),
        Err(AnalysisError::CommandFailed { code: Some(1) })
    );
    assert_eq!(analyze(None, None, Vec::new()), Err(AnalysisError::CommandFailed { code: None }));
    assert_eq!(
        analyze(Some(125), Some(payload(1, Vec::new())), Vec::new()),
        Err(AnalysisError::CommandFailed { code: Some(125) })
    );
}

#[test]
fn output_that_does_not_decode() {
    assert_eq!(analyze(Some(0), None, Vec::new()), Err(AnalysisError::MalformedPayload));
}

#[test]
fn later_version_is_refused() {
    let version = SUPPORTED_ARGS_PROTOCOL_VERSION + 1;
    assert_eq!(
        analyze(Some(0), Some(payload(version, Vec::new())), Vec::new()),
        Err(AnalysisError::UpgradeRequired { version: 2 })
    );
    assert!(DockerBuilder::for_analyzed_command(
        Some(0),
        Some(payload(version, vec![piece("a", false, true, false)])),
        &vec![canonical("/d/a")]
    )
    .is_err());
}

#[test]
fn later_version_is_refused_before_any_piece_is_looked_at() {
    let data = payload(2, vec![piece("gone", false, true, false)]);
    assert_eq!(
        analyze(Some(0), Some(data), vec![Resolution::Missing]),
        Err(AnalysisError::UpgradeRequired { version: 2 })
    );
}

#[test]
fn supported_versions_are_accepted() {
    assert!(analyze(Some(0), Some(payload(0, Vec::new())), Vec::new()).is_ok());
    assert!(analyze(Some(0), Some(payload(1, Vec::new())), Vec::new()).is_ok());
}

#[test]
fn path_error_ends_the_analysis() {
    let data = payload(1, vec![piece("gone", false, true, false)]);
    assert_eq!(
        analyze(Some(0), Some(data), vec![Resolution::Missing]),
        Err(AnalysisError::Path(PathError {
            kind: PathErrorKind::Unresolved,
            argument: "gone".to_string(),
        }))
    );
}

#[test]
fn command_without_paths() {
    let data = payload(1, vec![piece("solve", false, false, false)]);
    assert_eq!(
        analyze(Some(0), Some(data), Vec::new()),
        Ok(strings(&[
            "run",
            "--rm",
            "-it",
            "-e",
            "HOST_UID=1000",
            "-e",
            "HOST_GID=100",
            "aasworldwidetelescope/aligner:latest",
            "wwt-aligner-agent",
            "solve",
        ]))
    );
}

#[test]
fn command_with_volumes_ports_and_paths() {
    let data = ArgsProtocolData {
        version: 1,
        pieces: vec![
            piece("solve", false, false, false),
            piece("--in=", true, false, false),
            piece("in/a.fits", false, true, false),
            piece("out/b.fits", false, false, true),
            piece("in/c.fits", false, true, false),
        ],
        published_ports: vec![
            ArgsProtocolPortInfo { host_ip: "127.0.0.1".to_string(), host_port: 17001, container_port: 80 },
            ArgsProtocolPortInfo { host_ip: "0.0.0.0".to_string(), host_port: 0, container_port: 65535 },
        ],
    };
    let resolutions = vec![
        Resolution::Unneeded,
        Resolution::Unneeded,
        canonical("/home/me/in/a.fits"),
        canonical("/home/me/out"),
        canonical("/home/me/in/c.fits"),
    ];
    assert_eq!(
        analyze(Some(0), Some(data), resolutions),
        Ok(strings(&[
            "run",
            "--rm",
            "-it",
            "-v",
            "/home/me/in:/volumes/_home_me_in:ro",
            "-v",
            "/home/me/out:/volumes/_home_me_out:rw",
            "-p",
            "127.0.0.1:17001:80",
            "-p",
            "0.0.0.0:0:65535",
            "-e",
            "HOST_UID=1000",
            "-e",
            "HOST_GID=100",
            "aasworldwidetelescope/aligner:latest",
            "wwt-aligner-agent",
            "--x-host-path",
            "in/a.fits",
            "--x-container-path",
            "/volumes/_home_me_in/a.fits",
            "--x-host-path",
            "out/b.fits",
            "--x-container-path",
            "/volumes/_home_me_out/b.fits",
            "--x-host-path",
            "in/c.fits",
            "--x-container-path",
            "/volumes/_home_me_in/c.fits",
            "solve",
            "--in=/volumes/_home_me_in/a.fits",
            "/volumes/_home_me_out/b.fits",
            "/volumes/_home_me_in/c.fits",
        ]))
    );
}

#[test]
fn command_is_the_same_for_the_same_input() {
    let make = || {
        let data = payload(
            1,
            vec![piece("b/x", false, true, false), piece("a/y", false, true, false)],
        );
        analyze(Some(0), Some(data), vec![canonical("/b/x"), canonical("/a/y")])
    };
    assert_eq!(make(), make());
    let args = make().unwrap();
    assert_eq!(args[4], "/b:/volumes/_b:ro");
    assert_eq!(args[6], "/a:/volumes/_a:ro");
}

#[test]
fn default_builder_runs_the_default_image() {
    let command = DockerBuilder::default().into_command_for(0, 0);
    assert_eq!(
        command,
        DockerCommand {
            program: "docker".to_string(),
            args: strings(&[
                "run",
                "--rm",
                "-it",
                "-e",
                "HOST_UID=0",
                "-e",
                "HOST_GID=0",
                "aasworldwidetelescope/aligner:latest",
            ]),
        }
    );
}

#[test]
fn arguments_are_added_in_order() {
    let mut builder = DockerBuilder::default();
    builder.arg("wwt-aligner-agent").arg("--help");
    builder.arg("");
    let command = builder.into_command_for(4294967295, 65534);
    assert_eq!(
        command.args,
        strings(&[
            "run",
            "--rm",
            "-it",
            "-e",
            "HOST_UID=4294967295",
            "-e",
            "HOST_GID=65534",
            "aasworldwidetelescope/aligner:latest",
            "wwt-aligner-agent",
            "--help",
            "",
        ])
    );
}

#[test]
fn command_carries_the_identity_of_the_caller() {
    let uid = nix::unistd::geteuid().as_raw();
    let gid = nix::unistd::getegid().as_raw();
    let mut first = DockerBuilder::default();
    first.arg("x");
    let mut second = DockerBuilder::default();
    second.arg("x");
    let command = first.into_command();
    assert_eq!(command, second.into_command_for(uid, gid));
    assert_eq!(command.args[4], format!("HOST_UID={}", uid));
    assert_eq!(command.args[6], format!("HOST_GID={}", gid));
}

#[test]
fn port_from_the_payload() {
    let port = DockerPort::from(ArgsProtocolPortInfo {
        host_ip: "10.0.0.1".to_string(),
        host_port: 8080,
        container_port: 80,
    });
    assert_eq!(
        port,
        DockerPort { host_ip: "10.0.0.1".to_string(), host_port: 8080, container_port: 80 }
    );
}

#[test]
fn analysis_error_messages() {
    assert_eq!(
        AnalysisError::CommandFailed { code: Some(3) }.message(),
        "the Docker command signaled failure (error code 3)"
    );
    assert_eq!(
        AnalysisError::CommandFailed { code: Some(-1) }.message(),
        "the Docker command signaled failure (error code -1)"
    );
    assert_eq!(
        AnalysisError::CommandFailed { code: None }.message(),
        "the Docker command exited unexpectedly"
    );
    assert_eq!(
        AnalysisError::MalformedPayload.message(),
        "internal error: failed to parse args-analysis output as JSON text"
    );
    assert_eq!(
        AnalysisError::UpgradeRequired { version: 2 }.message(),
        "you must upgrade the launcher in order to use this version of the aligner"
    );
    assert_eq!(
        AnalysisError::Path(PathError {
            kind: PathErrorKind::Unresolved,
            argument: "gone".to_string(),
        })
        .message(),
        "failed to resolve filesystem path `gone`"
    );
}
