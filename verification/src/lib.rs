//! The launcher's side of running the aligner agent in a container.
//!
//! The agent runs inside a Docker container and does not see the files of
//! the host. This crate works out how to start it so that it can reach the
//! files named on the command line: it asks the agent which arguments are
//! paths, mounts the directory of each such path, rewrites the argument to
//! the path inside the container, and builds the Docker command line.
//!
//! Running a command, decoding its output and looking a path up on disk are
//! left to the caller, who hands the outcomes in as plain values. The one
//! thing this crate asks the system itself is who the caller is.

pub mod assemble;
pub mod docker;
pub mod invoke;
pub mod mapper;
pub mod mounts;
pub mod paths;
pub mod preview;
pub mod protocol;
pub mod text;
