//! The args protocol: what the agent reports about a command line when it is
//! run in analysis mode.
//!
//! The agent breaks every argument into pieces and says of each piece whether
//! it names a file on the host, and whether that file exists already or will
//! be created. It also lists the ports it wants published.

use vstd::prelude::*;

verus! {

/// The highest version of the args protocol that this crate understands.
pub const SUPPORTED_ARGS_PROTOCOL_VERSION: usize = 1;

/// The address on which a port is published when the agent names none.
pub const DEFAULT_PORT_IP: &'static str = "127.0.0.1";

/// Information about a portion of a command-line argument.
///
/// Arguments are broken into pieces so that the portions that are filesystem
/// paths can be identified and mounted inside the container.
#[derive(Debug, Clone, PartialEq, Eq)]
pub struct ArgsProtocolPieceInfo {
    /// The argument text.
    pub text: String,
    /// If true, the next piece is concatenated to this one, without any
    /// separator, before the argument is complete.
    pub incomplete: bool,
    /// If true, the text is a host path that exists before the tool runs.
    pub path_pre_exists: bool,
    /// If true, the text is a host path that the tool will create, so that
    /// its directory has to be mounted read-write.
    pub path_created: bool,
}

/// The mathematical content of an [`ArgsProtocolPieceInfo`].
pub struct PieceView {
    pub text: Seq<char>,
    pub incomplete: bool,
    pub path_pre_exists: bool,
    pub path_created: bool,
}

impl PieceView {
    /// A piece is a path when either of its path flags is set.
    pub open spec fn is_path(self) -> bool {
        self.path_pre_exists || self.path_created
    }
}

impl View for ArgsProtocolPieceInfo {
    type V = PieceView;

    open spec fn view(&self) -> PieceView {
        PieceView {
            text: self.text@,
            incomplete: self.incomplete,
            path_pre_exists: self.path_pre_exists,
            path_created: self.path_created,
        }
    }
}

impl ArgsProtocolPieceInfo {
    /// A piece of plain text that completes its argument.
    pub fn plain(text: String) -> (piece: Self)
        ensures
            piece@ == (PieceView {
                text: text@,
                incomplete: false,
                path_pre_exists: false,
                path_created: false,
            }),
    {
        ArgsProtocolPieceInfo { text, incomplete: false, path_pre_exists: false, path_created: false }
    }

    /// Whether the piece names a file on the host.
    pub fn is_path(&self) -> (b: bool)
        ensures
            b == self@.is_path(),
    {
        self.path_pre_exists || self.path_created
    }
}

/// A port of the container that the agent wants published on the host.
#[derive(Debug, Clone, PartialEq, Eq)]
pub struct ArgsProtocolPortInfo {
    pub host_ip: String,
    pub host_port: u16,
    pub container_port: u16,
}

/// The mathematical content of a port mapping.
pub struct PortView {
    pub host_ip: Seq<char>,
    pub host_port: u16,
    pub container_port: u16,
}

impl View for ArgsProtocolPortInfo {
    type V = PortView;

    open spec fn view(&self) -> PortView {
        PortView {
            host_ip: self.host_ip@,
            host_port: self.host_port,
            container_port: self.container_port,
        }
    }
}

impl ArgsProtocolPortInfo {
    /// A port published on the default address.
    pub fn on_default_ip(host_port: u16, container_port: u16) -> (port: Self)
        ensures
            port@ == (PortView { host_ip: DEFAULT_PORT_IP@, host_port, container_port }),
    {
        ArgsProtocolPortInfo { host_ip: default_port_ip(), host_port, container_port }
    }
}

/// The host address used for a port mapping that names none: the loopback
/// address.
pub fn default_port_ip() -> (ip: String)
    ensures
        ip@ == DEFAULT_PORT_IP@,
{
    DEFAULT_PORT_IP.to_owned()
}

/// The main args protocol payload.
#[derive(Debug, Clone, PartialEq, Eq)]
pub struct ArgsProtocolData {
    pub version: usize,
    pub pieces: Vec<ArgsProtocolPieceInfo>,
    pub published_ports: Vec<ArgsProtocolPortInfo>,
}

/// The mathematical content of an [`ArgsProtocolData`].
pub struct PayloadView {
    pub version: nat,
    pub pieces: Seq<PieceView>,
    pub published_ports: Seq<PortView>,
}

/// The views of a sequence of pieces, element by element.
pub open spec fn piece_views(pieces: Seq<ArgsProtocolPieceInfo>) -> Seq<PieceView> {
    pieces.map_values(|p: ArgsProtocolPieceInfo| p@)
}

/// The views of a sequence of port mappings, element by element.
pub open spec fn port_views(ports: Seq<ArgsProtocolPortInfo>) -> Seq<PortView> {
    ports.map_values(|p: ArgsProtocolPortInfo| p@)
}

impl View for ArgsProtocolData {
    type V = PayloadView;

    open spec fn view(&self) -> PayloadView {
        PayloadView {
            version: self.version as nat,
            pieces: piece_views(self.pieces@),
            published_ports: port_views(self.published_ports@),
        }
    }
}

/// A payload can be used when its version is not above the one this crate
/// implements.
pub open spec fn version_supported(version: nat) -> bool {
    version <= SUPPORTED_ARGS_PROTOCOL_VERSION
}

impl ArgsProtocolData {
    /// Whether this crate understands the payload's version.
    pub fn is_supported(&self) -> (b: bool)
        ensures
            b == version_supported(self@.version),
    {
        self.version <= SUPPORTED_ARGS_PROTOCOL_VERSION
    }
}

} // verus!
