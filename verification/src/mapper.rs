//! From argument pieces to mounts and container paths.
//!
//! A piece that names a file on the host is replaced by the path under which
//! the container sees that file, and the directory that holds the file is
//! mounted. Looking a path up on disk is not done here: the caller resolves
//! the path that [`resolution_request`] names and hands the outcome back as
//! a [`Resolution`].

use vstd::prelude::*;
use crate::assemble::{assembled, assembly_of, ArgAssembler, TextPiece};
use crate::mounts::{
    distinct_host_dirs, lemma_with_reference, mount_index, mounted, volume_views, with_reference,
    DockerVolume, MountTable, VolumeView,
};
use crate::paths::{
    container_dir_for, container_dir_of, container_path_for, container_path_of, file_name_of,
    join_path, output_basename, output_dirname, parent_path, path_file_name, path_joined,
    path_parent, split_output_path,
};
use crate::protocol::{piece_views, ArgsProtocolPieceInfo, PieceView};
use crate::text::texts;

verus! {

/// The flag that announces the host-side text of a path argument.
pub const HOST_PATH_FLAG: &'static str = "--x-host-path";

/// The flag that announces the container-side path of a path argument.
pub const CONTAINER_PATH_FLAG: &'static str = "--x-container-path";

/// What came of resolving a path on the host to its canonical form, with
/// every symbolic link followed.
#[derive(Debug, Clone, PartialEq, Eq)]
pub enum Resolution {
    /// Nothing was resolved, because the piece asked for nothing.
    Unneeded,
    /// The canonical, absolute path.
    Canonical(String),
    /// The path does not exist or cannot be resolved.
    Missing,
    /// The canonical path cannot be written as Unicode text.
    NotUnicode,
}

/// The mathematical content of a [`Resolution`].
pub enum ResolutionView {
    Unneeded,
    Canonical(Seq<char>),
    Missing,
    NotUnicode,
}

impl View for Resolution {
    type V = ResolutionView;

    open spec fn view(&self) -> ResolutionView {
        match self {
            Resolution::Unneeded => ResolutionView::Unneeded,
            Resolution::Canonical(path) => ResolutionView::Canonical(path@),
            Resolution::Missing => ResolutionView::Missing,
            Resolution::NotUnicode => ResolutionView::NotUnicode,
        }
    }
}

/// The views of a sequence of resolutions, element by element.
pub open spec fn resolution_views(resolutions: Seq<Resolution>) -> Seq<ResolutionView> {
    resolutions.map_values(|r: Resolution| r@)
}

/// Why a path argument cannot be mapped.
#[derive(Debug, Clone, Copy, PartialEq, Eq)]
pub enum PathErrorKind {
    /// A path that has to exist could not be resolved.
    Unresolved,
    /// A path to be created names no file: its final component is empty.
    EmptyFileName,
    /// The directory of a path to be created could not be resolved.
    UnresolvedDirectory,
    /// The resolved path has no final component.
    NoFileName,
    /// The resolved path cannot be written as Unicode text.
    NotUnicode,
}

/// A path argument that cannot be mapped, and why.
#[derive(Debug, Clone, PartialEq, Eq)]
pub struct PathError {
    pub kind: PathErrorKind,
    /// The text of the argument piece, as the user wrote it.
    pub argument: String,
}

/// The mathematical content of a [`PathError`].
pub struct PathErrorView {
    pub kind: PathErrorKind,
    pub argument: Seq<char>,
}

impl View for PathError {
    type V = PathErrorView;

    open spec fn view(&self) -> PathErrorView {
        PathErrorView { kind: self.kind, argument: self.argument@ }
    }
}

/// What stands before the argument in the message for an error.
pub open spec fn message_head(kind: PathErrorKind) -> Seq<char> {
    match kind {
        PathErrorKind::Unresolved => "failed to resolve filesystem path `"@,
        PathErrorKind::EmptyFileName => "cannot process empty input path `"@,
        PathErrorKind::UnresolvedDirectory => "failed to resolve directory of output path `"@,
        PathErrorKind::NoFileName => "cannot process path `"@,
        PathErrorKind::NotUnicode => "cannot handle path `"@,
    }
}

/// What stands after the argument in the message for an error.
pub open spec fn message_tail(kind: PathErrorKind) -> Seq<char> {
    match kind {
        PathErrorKind::Unresolved => "`"@,
        PathErrorKind::EmptyFileName => "`"@,
        PathErrorKind::UnresolvedDirectory => "`"@,
        PathErrorKind::NoFileName => "`, which lacks a filename component"@,
        PathErrorKind::NotUnicode => "`, which resolves to something inexpressible as Unicode"@,
    }
}

impl PathError {
    /// A message for the user that names the offending argument.
    pub fn message(&self) -> (text: String)
        ensures
            text@ == message_head(self.kind) + self.argument@ + message_tail(self.kind),
    {
        let (head, tail) = match self.kind {
            PathErrorKind::Unresolved => ("failed to resolve filesystem path `", "`"),
            PathErrorKind::EmptyFileName => ("cannot process empty input path `", "`"),
            PathErrorKind::UnresolvedDirectory => (
                "failed to resolve directory of output path `",
                "`",
            ),
            PathErrorKind::NoFileName => (
                "cannot process path `",
                "`, which lacks a filename component",
            ),
            PathErrorKind::NotUnicode => (
                "cannot handle path `",
                "`, which resolves to something inexpressible as Unicode",
            ),
        };
        let mut text = head.to_owned();
        text.append(self.argument.as_str());
        text.append(tail);
        text
    }
}

/// How a path piece is seen from the container.
#[derive(Debug, Clone, PartialEq, Eq)]
pub struct PathUse {
    /// The text of the piece, as the user wrote it.
    pub host_text: String,
    /// The canonical host directory that holds the file.
    pub host_dir: String,
    /// The directory of the container on which the host directory is mounted.
    pub container_dir: String,
    /// The path of the file inside the container.
    pub container_path: String,
    /// Whether the file will be created, so that the mount has to be writable.
    pub created: bool,
}

/// The mathematical content of a [`PathUse`].
pub struct PathUseView {
    pub host_text: Seq<char>,
    pub host_dir: Seq<char>,
    pub container_dir: Seq<char>,
    pub container_path: Seq<char>,
    pub created: bool,
}

impl View for PathUse {
    type V = PathUseView;

    open spec fn view(&self) -> PathUseView {
        PathUseView {
            host_text: self.host_text@,
            host_dir: self.host_dir@,
            container_dir: self.container_dir@,
            container_path: self.container_path@,
            created: self.created,
        }
    }
}

/// An argument piece after mapping: the text that is forwarded in its place
/// and, for a path piece, how the path is seen from the container.
#[derive(Debug, Clone, PartialEq, Eq)]
pub struct MappedPiece {
    pub text: String,
    pub incomplete: bool,
    pub path: Option<PathUse>,
}

/// The mathematical content of a [`MappedPiece`].
pub struct MappedPieceView {
    pub text: Seq<char>,
    pub incomplete: bool,
    pub path: Option<PathUseView>,
}

impl View for MappedPiece {
    type V = MappedPieceView;

    open spec fn view(&self) -> MappedPieceView {
        MappedPieceView {
            text: self.text@,
            incomplete: self.incomplete,
            path: match self.path {
                Some(path) => Some(path@),
                None => None,
            },
        }
    }
}

/// The path that has to be resolved on the host before `piece` can be
/// mapped: the whole text for a file that exists, the directory portion for
/// a file that will be created, and nothing for plain text or for an output
/// path without a file name.
pub open spec fn path_to_resolve(piece: PieceView) -> Option<Seq<char>> {
    if piece.path_pre_exists {
        Some(piece.text)
    } else if piece.path_created && output_basename(piece.text).len() > 0 {
        Some(output_dirname(piece.text))
    } else {
        None
    }
}

/// Names the path that the caller has to resolve for `piece`, if any.
pub fn resolution_request(piece: &ArgsProtocolPieceInfo) -> (request: Option<String>)
    ensures
        request is Some == path_to_resolve(piece@) is Some,
        request is Some ==> path_to_resolve(piece@) == Some(request->0@),
{
    if piece.path_pre_exists {
        Some(piece.text.clone())
    } else if piece.path_created {
        let (dirname, basename) = split_output_path(piece.text.as_str());
        if basename.as_str().is_empty() {
            None
        } else {
            Some(dirname)
        }
    } else {
        None
    }
}

/// The canonical host path of the file that a path piece names.
///
/// A file that exists is resolved as a whole, so that a symbolic link gives
/// the place and the name of what it points to. Of a file that will be
/// created only the directory is resolved, and the final component of the
/// text is put behind it as it stands.
pub open spec fn host_path_of(piece: PieceView, resolution: ResolutionView) -> Result<
    Seq<char>,
    PathErrorKind,
> {
    if piece.path_pre_exists {
        match resolution {
            ResolutionView::Canonical(path) => Ok(path),
            ResolutionView::NotUnicode => Err(PathErrorKind::NotUnicode),
            _ => Err(PathErrorKind::Unresolved),
        }
    } else if output_basename(piece.text).len() == 0 {
        Err(PathErrorKind::EmptyFileName)
    } else {
        match resolution {
            ResolutionView::Canonical(dir) => Ok(path_joined(dir, output_basename(piece.text))),
            ResolutionView::NotUnicode => Err(PathErrorKind::NotUnicode),
            _ => Err(PathErrorKind::UnresolvedDirectory),
        }
    }
}

/// Computes the canonical host path of the file that a path piece names.
pub fn host_path_for(piece: &ArgsProtocolPieceInfo, resolution: &Resolution) -> (r: Result<
    String,
    PathErrorKind,
>)
    ensures
        match r {
            Ok(path) => host_path_of(piece@, resolution@) == Ok::<Seq<char>, PathErrorKind>(path@),
            Err(kind) => host_path_of(piece@, resolution@) == Err::<Seq<char>, PathErrorKind>(kind),
        },
{
    if piece.path_pre_exists {
        match resolution {
            Resolution::Canonical(path) => Ok(path.clone()),
            Resolution::NotUnicode => Err(PathErrorKind::NotUnicode),
            _ => Err(PathErrorKind::Unresolved),
        }
    } else {
        let (_dirname, basename) = split_output_path(piece.text.as_str());
        if basename.as_str().is_empty() {
            Err(PathErrorKind::EmptyFileName)
        } else {
            match resolution {
                Resolution::Canonical(dir) => Ok(join_path(dir.as_str(), basename.as_str())),
                Resolution::NotUnicode => Err(PathErrorKind::NotUnicode),
                _ => Err(PathErrorKind::UnresolvedDirectory),
            }
        }
    }
}

/// How the file `file_name` in `host_dir` is seen from the container, or
/// the error for a path without a final component.
pub open spec fn located(
    host_text: Seq<char>,
    host_dir: Seq<char>,
    file_name: Option<Seq<char>>,
    created: bool,
) -> Result<PathUseView, PathErrorKind> {
    match file_name {
        None => Err(PathErrorKind::NoFileName),
        Some(name) => Ok(
            PathUseView {
                host_text,
                host_dir,
                container_dir: container_dir_of(host_dir),
                container_path: container_path_of(container_dir_of(host_dir), name),
                created,
            },
        ),
    }
}

impl PathUse {
    /// Places the file `file_name` of `host_dir` in the container.
    pub fn locate(
        host_text: String,
        host_dir: String,
        file_name: Option<String>,
        created: bool,
    ) -> (r: Result<PathUse, PathErrorKind>)
        ensures
            match r {
                Ok(path) => located(
                    host_text@,
                    host_dir@,
                    match file_name {
                        Some(name) => Some(name@),
                        None => None,
                    },
                    created,
                ) == Ok::<PathUseView, PathErrorKind>(path@),
                Err(kind) => file_name is None && kind == PathErrorKind::NoFileName,
            },
    {
        match file_name {
            None => Err(PathErrorKind::NoFileName),
            Some(name) => {
                let container_dir = container_dir_for(host_dir.as_str());
                let container_path = container_path_for(container_dir.as_str(), name.as_str());
                Ok(PathUse { host_text, host_dir, container_dir, container_path, created })
            },
        }
    }
}

/// An argument piece after mapping.
///
/// Plain text is forwarded as it stands. A path piece is replaced by the
/// path of the file inside the container: the mount point of the file's
/// canonical directory, a separator, and the file's canonical name.
pub open spec fn mapped_piece(piece: PieceView, resolution: ResolutionView) -> Result<
    MappedPieceView,
    PathErrorView,
> {
    if !piece.is_path() {
        Ok(MappedPieceView { text: piece.text, incomplete: piece.incomplete, path: None })
    } else {
        match host_path_of(piece, resolution) {
            Err(kind) => Err(PathErrorView { kind, argument: piece.text }),
            Ok(host_path) => match located(
                piece.text,
                path_parent(host_path),
                path_file_name(host_path),
                piece.path_created,
            ) {
                Err(kind) => Err(PathErrorView { kind, argument: piece.text }),
                Ok(path) => Ok(
                    MappedPieceView {
                        text: path.container_path,
                        incomplete: piece.incomplete,
                        path: Some(path),
                    },
                ),
            },
        }
    }
}

/// Nothing has to be looked up on disk for a piece that asks for nothing:
/// plain text is mapped to itself and an output path without a file name is
/// refused, whatever resolution is handed in.
pub proof fn lemma_no_request_no_lookup(
    piece: PieceView,
    first: ResolutionView,
    second: ResolutionView,
)
    requires
        path_to_resolve(piece) is None,
    ensures
        mapped_piece(piece, first) == mapped_piece(piece, second),
        !piece.is_path() ==> mapped_piece(piece, first) == Ok::<MappedPieceView, PathErrorView>(
            MappedPieceView { text: piece.text, incomplete: piece.incomplete, path: None },
        ),
        piece.is_path() ==> mapped_piece(piece, first) == Err::<MappedPieceView, PathErrorView>(
            PathErrorView { kind: PathErrorKind::EmptyFileName, argument: piece.text },
        ),
{
}

/// Maps one argument piece, given what came of resolving its path.
pub fn map_piece(piece: &ArgsProtocolPieceInfo, resolution: &Resolution) -> (r: Result<
    MappedPiece,
    PathError,
>)
    ensures
        match r {
            Ok(mapped) => mapped_piece(piece@, resolution@) == Ok::<MappedPieceView, PathErrorView>(
                mapped@,
            ),
            Err(error) => mapped_piece(piece@, resolution@) == Err::<MappedPieceView, PathErrorView>(
                error@,
            ),
        },
{
    if !piece.is_path() {
        return Ok(MappedPiece { text: piece.text.clone(), incomplete: piece.incomplete, path: None });
    }
    let host_path = match host_path_for(piece, resolution) {
        Ok(path) => path,
        Err(kind) => {
            return Err(PathError { kind, argument: piece.text.clone() });
        },
    };
    let host_dir = parent_path(host_path.as_str());
    let file_name = file_name_of(host_path.as_str());
    match PathUse::locate(piece.text.clone(), host_dir, file_name, piece.path_created) {
        Err(kind) => Err(PathError { kind, argument: piece.text.clone() }),
        Ok(path) => Ok(
            MappedPiece {
                text: path.container_path.clone(),
                incomplete: piece.incomplete,
                path: Some(path),
            },
        ),
    }
}

/// The resolution that belongs to the piece at `index`: the one at the same
/// place in `resolutions`, and a missing one where the list is too short.
pub open spec fn resolution_at(resolutions: Seq<ResolutionView>, index: int) -> ResolutionView {
    if 0 <= index < resolutions.len() {
        resolutions[index]
    } else {
        ResolutionView::Missing
    }
}

/// All pieces after mapping, or the error of the first piece that cannot be
/// mapped.
pub open spec fn mapped_pieces(pieces: Seq<PieceView>, resolutions: Seq<ResolutionView>) -> Result<
    Seq<MappedPieceView>,
    PathErrorView,
>
    decreases pieces.len(),
{
    if pieces.len() == 0 {
        Ok(Seq::empty())
    } else {
        match mapped_pieces(pieces.drop_last(), resolutions) {
            Err(error) => Err(error),
            Ok(front) => match mapped_piece(
                pieces.last(),
                resolution_at(resolutions, pieces.len() - 1),
            ) {
                Err(error) => Err(error),
                Ok(last) => Ok(front.push(last)),
            },
        }
    }
}

/// The mounts that the mapped pieces ask for, in the order in which their
/// host directories are first referred to.
pub open spec fn mounts_of(mapped: Seq<MappedPieceView>) -> Seq<VolumeView>
    decreases mapped.len(),
{
    if mapped.len() == 0 {
        Seq::empty()
    } else {
        match mapped.last().path {
            None => mounts_of(mapped.drop_last()),
            Some(path) => with_reference(
                mounts_of(mapped.drop_last()),
                path.host_dir,
                path.container_dir,
                path.created,
            ),
        }
    }
}

/// The four extra arguments that tell the agent of one path piece: the flag
/// for the host side, the text as the user wrote it, the flag for the
/// container side, and the path inside the container.
pub open spec fn side_args_for(path: PathUseView) -> Seq<Seq<char>> {
    seq![HOST_PATH_FLAG@, path.host_text, CONTAINER_PATH_FLAG@, path.container_path]
}

/// The extra arguments for all path pieces, in the order of the pieces.
pub open spec fn side_args_of(mapped: Seq<MappedPieceView>) -> Seq<Seq<char>>
    decreases mapped.len(),
{
    if mapped.len() == 0 {
        Seq::empty()
    } else {
        match mapped.last().path {
            None => side_args_of(mapped.drop_last()),
            Some(path) => side_args_of(mapped.drop_last()) + side_args_for(path),
        }
    }
}

/// The texts of the mapped pieces, ready to be assembled.
pub open spec fn text_pieces_of(mapped: Seq<MappedPieceView>) -> Seq<TextPiece> {
    mapped.map_values(|m: MappedPieceView| TextPiece { text: m.text, incomplete: m.incomplete })
}

/// What mapping a whole command line gives.
#[derive(Debug, Clone, PartialEq, Eq)]
pub struct MappedArguments {
    /// One volume for each host directory that a path piece refers to.
    pub volumes: Vec<DockerVolume>,
    /// The extra arguments that tell the agent of the path pieces.
    pub side_args: Vec<String>,
    /// The arguments proper, with container paths in place of host paths.
    pub args: Vec<String>,
}

/// The mathematical content of a [`MappedArguments`].
pub struct MappedArgumentsView {
    pub volumes: Seq<VolumeView>,
    pub side_args: Seq<Seq<char>>,
    pub args: Seq<Seq<char>>,
}

impl View for MappedArguments {
    type V = MappedArgumentsView;

    open spec fn view(&self) -> MappedArgumentsView {
        MappedArgumentsView {
            volumes: volume_views(self.volumes@),
            side_args: texts(self.side_args@),
            args: texts(self.args@),
        }
    }
}

/// The mounts, the extra arguments and the arguments proper that a sequence
/// of mapped pieces makes up.
pub open spec fn arguments_of(mapped: Seq<MappedPieceView>) -> MappedArgumentsView {
    MappedArgumentsView {
        volumes: mounts_of(mapped),
        side_args: side_args_of(mapped),
        args: assembled(text_pieces_of(mapped)),
    }
}

/// What mapping the pieces of a command line gives, or the error of the
/// first piece that cannot be mapped.
pub open spec fn mapped_arguments(
    pieces: Seq<PieceView>,
    resolutions: Seq<ResolutionView>,
) -> Result<MappedArgumentsView, PathErrorView> {
    match mapped_pieces(pieces, resolutions) {
        Err(error) => Err(error),
        Ok(mapped) => Ok(arguments_of(mapped)),
    }
}

/// A piece that cannot be mapped makes the whole mapping fail with its
/// error, whatever follows it.
pub proof fn lemma_first_error_wins(
    pieces: Seq<PieceView>,
    resolutions: Seq<ResolutionView>,
    upto: int,
)
    requires
        0 <= upto <= pieces.len(),
        mapped_pieces(pieces.take(upto), resolutions) is Err,
    ensures
        mapped_pieces(pieces, resolutions) == mapped_pieces(pieces.take(upto), resolutions),
    decreases pieces.len(),
{
    if upto == pieces.len() {
        assert(pieces.take(upto) == pieces);
    } else {
        assert(pieces.drop_last().take(upto) == pieces.take(upto));
        lemma_first_error_wins(pieces.drop_last(), resolutions, upto);
    }
}

/// Mapping keeps the pieces in step: there is one mapped piece for each
/// piece, a path piece is mapped to a path, and every path is mounted on
/// the container directory that belongs to its host directory.
pub proof fn lemma_mapped_pieces(pieces: Seq<PieceView>, resolutions: Seq<ResolutionView>)
    requires
        mapped_pieces(pieces, resolutions) is Ok,
    ensures
        mapped_pieces(pieces, resolutions)->Ok_0.len() == pieces.len(),
        forall|i: int|
            #![trigger pieces[i]]
            0 <= i < pieces.len() ==> {
                let mapped = mapped_pieces(pieces, resolutions)->Ok_0[i];
                &&& Ok::<MappedPieceView, PathErrorView>(mapped) == mapped_piece(
                    pieces[i],
                    resolution_at(resolutions, i),
                )
                &&& mapped.incomplete == pieces[i].incomplete
                &&& mapped.path is Some == pieces[i].is_path()
                &&& !pieces[i].is_path() ==> mapped.text == pieces[i].text
                &&& mapped.path matches Some(path) ==> {
                    &&& path.host_text == pieces[i].text
                    &&& path.created == pieces[i].path_created
                    &&& path.container_dir == container_dir_of(path.host_dir)
                    &&& mapped.text == path.container_path
                }
            },
    decreases pieces.len(),
{
    if pieces.len() > 0 {
        let front = pieces.drop_last();
        lemma_mapped_pieces(front, resolutions);
        let done = mapped_pieces(front, resolutions)->Ok_0;
        let all = mapped_pieces(pieces, resolutions)->Ok_0;
        assert forall|i: int| #![trigger pieces[i]] 0 <= i < pieces.len() implies {
            let mapped = all[i];
            &&& Ok::<MappedPieceView, PathErrorView>(mapped) == mapped_piece(
                pieces[i],
                resolution_at(resolutions, i),
            )
            &&& mapped.incomplete == pieces[i].incomplete
            &&& mapped.path is Some == pieces[i].is_path()
            &&& !pieces[i].is_path() ==> mapped.text == pieces[i].text
            &&& mapped.path matches Some(path) ==> {
                &&& path.host_text == pieces[i].text
                &&& path.created == pieces[i].path_created
                &&& path.container_dir == container_dir_of(path.host_dir)
                &&& mapped.text == path.container_path
            }
        } by {
            if i < front.len() {
                assert(front[i] == pieces[i]);
                assert(all[i] == done[i]);
            }
        }
    }
}

/// Whether the piece at `index` is a path in the host directory `dir`.
pub open spec fn refers_to(mapped: Seq<MappedPieceView>, index: int, dir: Seq<char>) -> bool {
    &&& 0 <= index < mapped.len()
    &&& mapped[index].path is Some
    &&& mapped[index].path->0.host_dir == dir
}

/// Whether some piece creates a file in the host directory `dir`.
pub open spec fn creates_in(mapped: Seq<MappedPieceView>, dir: Seq<char>) -> bool {
    exists|i: int| #[trigger] refers_to(mapped, i, dir) && mapped[i].path->0.created
}

/// Whether some piece refers to the host directory `dir` and would mount it
/// on `container_dir`.
pub open spec fn mounts_on(
    mapped: Seq<MappedPieceView>,
    dir: Seq<char>,
    container_dir: Seq<char>,
) -> bool {
    exists|i: int| #[trigger]
        refers_to(mapped, i, dir) && mapped[i].path->0.container_dir == container_dir
}

/// The mounts of a mapped command line, whatever its pieces are: no host
/// directory is mounted twice; every directory that a piece refers to is
/// mounted; nothing else is mounted; each mount is on a container directory
/// that one of the pieces referring to it names; and a mount is writable if
/// and only if one of the pieces referring to it creates its file.
pub proof fn lemma_mounts_of(mapped: Seq<MappedPieceView>)
    ensures
        distinct_host_dirs(mounts_of(mapped)),
        forall|i: int, dir: Seq<char>| #[trigger]
            refers_to(mapped, i, dir) ==> mounted(mounts_of(mapped), dir),
        forall|k: int|
            #![trigger mounts_of(mapped)[k]]
            0 <= k < mounts_of(mapped).len() ==> {
                let mount = mounts_of(mapped)[k];
                &&& mounts_on(mapped, mount.host_path, mount.container_path)
                &&& mount.read_write == creates_in(mapped, mount.host_path)
            },
    decreases mapped.len(), 1int,
{
    if mapped.len() > 0 {
        lemma_mounts_of_step(mapped);
    }
}

/// The step of [`lemma_mounts_of`]: from all pieces but the last to all.
proof fn lemma_mounts_of_step(mapped: Seq<MappedPieceView>)
    requires
        mapped.len() > 0,
    ensures
        distinct_host_dirs(mounts_of(mapped)),
        forall|i: int, dir: Seq<char>| #[trigger]
            refers_to(mapped, i, dir) ==> mounted(mounts_of(mapped), dir),
        forall|k: int|
            #![trigger mounts_of(mapped)[k]]
            0 <= k < mounts_of(mapped).len() ==> {
                let mount = mounts_of(mapped)[k];
                &&& mounts_on(mapped, mount.host_path, mount.container_path)
                &&& mount.read_write == creates_in(mapped, mount.host_path)
            },
    decreases mapped.len(), 0int,
{
    let front = mapped.drop_last();
    let before = mounts_of(front);
    let after = mounts_of(mapped);
    let last = mapped.len() - 1;
    lemma_mounts_of(front);
    assert forall|i: int, dir: Seq<char>| refers_to(front, i, dir) implies #[trigger] refers_to(
        mapped,
        i,
        dir,
    ) by {
        assert(front[i] == mapped[i]);
    }
    assert forall|i: int, dir: Seq<char>| refers_to(mapped, i, dir) && i != last implies #[trigger]
        refers_to(front, i, dir) by {
        assert(front[i] == mapped[i]);
    }
    assert forall|i: int| 0 <= i < front.len() implies #[trigger] front[i] == mapped[i] by {}
    match mapped.last().path {
        None => {
            assert forall|k: int| #![trigger after[k]] 0 <= k < after.len() implies {
                &&& mounts_on(mapped, after[k].host_path, after[k].container_path)
                &&& after[k].read_write == creates_in(mapped, after[k].host_path)
            } by {
                let mount = before[k];
                let w = choose|i: int| #[trigger]
                    refers_to(front, i, mount.host_path) && front[i].path->0.container_dir
                        == mount.container_path;
                assert(refers_to(mapped, w, mount.host_path));
                if creates_in(front, mount.host_path) {
                    let c = choose|i: int| #[trigger]
                        refers_to(front, i, mount.host_path) && front[i].path->0.created;
                    assert(refers_to(mapped, c, mount.host_path));
                }
                if creates_in(mapped, mount.host_path) {
                    let c = choose|i: int| #[trigger]
                        refers_to(mapped, i, mount.host_path) && mapped[i].path->0.created;
                    assert(refers_to(front, c, mount.host_path));
                }
            }
            assert forall|i: int, dir: Seq<char>| #[trigger]
                refers_to(mapped, i, dir) implies mounted(after, dir) by {
                assert(refers_to(front, i, dir));
            }
        },
        Some(path) => {
            lemma_with_reference(before, path.host_dir, path.container_dir, path.created);
            assert(refers_to(mapped, last, path.host_dir));
            assert forall|i: int, dir: Seq<char>| #[trigger]
                refers_to(mapped, i, dir) implies mounted(after, dir) by {
                if i != last {
                    assert(refers_to(front, i, dir));
                    let at = mount_index(before, dir);
                    assert(before[at].host_path == dir);
                    assert(after[at].host_path == dir);
                }
            }
            assert forall|k: int| #![trigger after[k]] 0 <= k < after.len() implies {
                &&& mounts_on(mapped, after[k].host_path, after[k].container_path)
                &&& after[k].read_write == creates_in(mapped, after[k].host_path)
            } by {
                let dir = after[k].host_path;
                if k < before.len() {
                    let mount = before[k];
                    assert(after[k].host_path == mount.host_path);
                    let w = choose|i: int| #[trigger]
                        refers_to(front, i, dir) && front[i].path->0.container_dir
                            == mount.container_path;
                    assert(refers_to(mapped, w, dir));
                    if creates_in(front, dir) {
                        let c = choose|i: int| #[trigger]
                            refers_to(front, i, dir) && front[i].path->0.created;
                        assert(refers_to(mapped, c, dir));
                    }
                    if creates_in(mapped, dir) {
                        let c = choose|i: int| #[trigger]
                            refers_to(mapped, i, dir) && mapped[i].path->0.created;
                        if c != last {
                            assert(refers_to(front, c, dir));
                        }
                    }
                } else {
                    assert(!mounted(before, path.host_dir));
                    assert(after[k] == VolumeView {
                        host_path: path.host_dir,
                        container_path: path.container_dir,
                        read_write: path.created,
                    });
                    if creates_in(mapped, dir) {
                        let c = choose|i: int| #[trigger]
                            refers_to(mapped, i, dir) && mapped[i].path->0.created;
                        if c != last {
                            assert(refers_to(front, c, dir));
                            assert(mounted(before, dir));
                        }
                    }
                }
            }
        },
    }
}

/// However often the pieces of a command line refer to a host directory, it
/// is mounted exactly once, and on the container directory that is computed
/// from the host directory alone.
pub proof fn lemma_one_mount_per_directory(
    pieces: Seq<PieceView>,
    resolutions: Seq<ResolutionView>,
    index: int,
)
    requires
        mapped_pieces(pieces, resolutions) is Ok,
        0 <= index < pieces.len(),
        pieces[index].is_path(),
    ensures
        ({
            let mapped = mapped_pieces(pieces, resolutions)->Ok_0;
            let mounts = mapped_arguments(pieces, resolutions)->Ok_0.volumes;
            let dir = mapped[index].path->0.host_dir;
            &&& mapped[index].path is Some
            &&& mounted(mounts, dir)
            &&& forall|j: int, k: int|
                0 <= j < mounts.len() && 0 <= k < mounts.len() && (#[trigger] mounts[j]).host_path
                    == dir && (#[trigger] mounts[k]).host_path == dir ==> j == k
            &&& mounts[mount_index(mounts, dir)].host_path == dir
            &&& mounts[mount_index(mounts, dir)].container_path == container_dir_of(dir)
        }),
{
    let mapped = mapped_pieces(pieces, resolutions)->Ok_0;
    let mounts = mounts_of(mapped);
    lemma_mapped_pieces(pieces, resolutions);
    lemma_mounts_of(mapped);
    assert(pieces[index].is_path() && mapped[index].path is Some);
    let dir = mapped[index].path->0.host_dir;
    assert(refers_to(mapped, index, dir));
    let at = mount_index(mounts, dir);
    assert(mounts_on(mapped, mounts[at].host_path, mounts[at].container_path));
    let w = choose|i: int| #[trigger]
        refers_to(mapped, i, dir) && mapped[i].path->0.container_dir == mounts[at].container_path;
    assert(pieces[w].is_path());
    assert(mapped[w].path->0.container_dir == container_dir_of(dir));
    assert forall|j: int, k: int|
        0 <= j < mounts.len() && 0 <= k < mounts.len() && (#[trigger] mounts[j]).host_path == dir
            && (#[trigger] mounts[k]).host_path == dir implies j == k by {
        if j < k {
            assert(mounts[j].host_path != mounts[k].host_path);
        } else if k < j {
            assert(mounts[k].host_path != mounts[j].host_path);
        }
    }
}

/// Every mount of a command line is the directory of one of its path
/// pieces: no other host directory is made visible.
pub proof fn lemma_only_referenced_directories(
    pieces: Seq<PieceView>,
    resolutions: Seq<ResolutionView>,
    mount: int,
)
    requires
        mapped_pieces(pieces, resolutions) is Ok,
        0 <= mount < mapped_arguments(pieces, resolutions)->Ok_0.volumes.len(),
    ensures
        ({
            let mapped = mapped_pieces(pieces, resolutions)->Ok_0;
            let mounts = mapped_arguments(pieces, resolutions)->Ok_0.volumes;
            exists|i: int|
                0 <= i < pieces.len() && pieces[i].is_path() && #[trigger] refers_to(
                    mapped,
                    i,
                    mounts[mount].host_path,
                )
        }),
{
    let mapped = mapped_pieces(pieces, resolutions)->Ok_0;
    let mounts = mounts_of(mapped);
    lemma_mapped_pieces(pieces, resolutions);
    lemma_mounts_of(mapped);
    assert(mounts_on(mapped, mounts[mount].host_path, mounts[mount].container_path));
    let w = choose|i: int| #[trigger]
        refers_to(mapped, i, mounts[mount].host_path) && mapped[i].path->0.container_dir
            == mounts[mount].container_path;
    assert(pieces[w].is_path());
}

/// A host directory is mounted read-write if and only if at least one of
/// the pieces that are mapped into it will be created; otherwise it is
/// mounted read-only.
pub proof fn lemma_writable_iff_created(
    pieces: Seq<PieceView>,
    resolutions: Seq<ResolutionView>,
    mount: int,
)
    requires
        mapped_pieces(pieces, resolutions) is Ok,
        0 <= mount < mapped_arguments(pieces, resolutions)->Ok_0.volumes.len(),
    ensures
        ({
            let mapped = mapped_pieces(pieces, resolutions)->Ok_0;
            let mounts = mapped_arguments(pieces, resolutions)->Ok_0.volumes;
            mounts[mount].read_write <==> exists|i: int|
                0 <= i < pieces.len() && pieces[i].path_created && #[trigger] refers_to(
                    mapped,
                    i,
                    mounts[mount].host_path,
                )
        }),
{
    let mapped = mapped_pieces(pieces, resolutions)->Ok_0;
    let mounts = mounts_of(mapped);
    let dir = mounts[mount].host_path;
    lemma_mapped_pieces(pieces, resolutions);
    lemma_mounts_of(mapped);
    if mounts[mount].read_write {
        let c = choose|i: int| #[trigger] refers_to(mapped, i, dir) && mapped[i].path->0.created;
        assert(pieces[c].path_created && refers_to(mapped, c, dir));
    }
    if exists|i: int|
        0 <= i < pieces.len() && pieces[i].path_created && #[trigger] refers_to(mapped, i, dir) {
        let c = choose|i: int|
            0 <= i < pieces.len() && pieces[i].path_created && #[trigger] refers_to(mapped, i, dir);
        assert(pieces[c].path_created && mapped[c].path->0.created);
        assert(refers_to(mapped, c, dir) && mapped[c].path->0.created);
    }
}

/// A file that exists is seen in the container under the directory and the
/// name of its canonical path, whatever the text that names it: two texts
/// that resolve to one file are mapped to one container path, so that a
/// symbolic link is addressed by the name of what it points to.
pub proof fn lemma_existing_path_follows_resolution(
    first: PieceView,
    second: PieceView,
    canonical: Seq<char>,
)
    requires
        first.path_pre_exists,
        second.path_pre_exists,
    ensures
        mapped_piece(first, ResolutionView::Canonical(canonical)) is Ok == mapped_piece(
            second,
            ResolutionView::Canonical(canonical),
        ) is Ok,
        mapped_piece(first, ResolutionView::Canonical(canonical)) matches Ok(mapped) ==> {
            &&& path_file_name(canonical) matches Some(name)
            &&& mapped.path matches Some(path)
            &&& path.host_dir == path_parent(canonical)
            &&& mapped.text == container_path_of(container_dir_of(path_parent(canonical)), name)
            &&& mapped_piece(second, ResolutionView::Canonical(canonical)) matches Ok(other)
            &&& other.text == mapped.text
            &&& other.path matches Some(other_path)
            &&& other_path.host_dir == path.host_dir
            &&& other_path.container_dir == path.container_dir
        },
{
}

/// Maps the pieces of a command line, given for each piece what came of
/// resolving its path.
///
/// `resolutions` holds one entry for each piece, at the piece's position;
/// a path piece without an entry counts as one whose path is missing. The
/// pieces are taken in order and the first one that cannot be mapped ends
/// the mapping with its error.
pub fn map_pieces(pieces: &Vec<ArgsProtocolPieceInfo>, resolutions: &Vec<Resolution>) -> (r: Result<
    MappedArguments,
    PathError,
>)
    ensures
        match r {
            Ok(mapped) => {
                &&& mapped_arguments(piece_views(pieces@), resolution_views(resolutions@)) == Ok::<
                    MappedArgumentsView,
                    PathErrorView,
                >(mapped@)
                &&& distinct_host_dirs(mapped@.volumes)
            },
            Err(error) => mapped_arguments(piece_views(pieces@), resolution_views(resolutions@))
                == Err::<MappedArgumentsView, PathErrorView>(error@),
        },
{
    let ghost all = piece_views(pieces@);
    let ghost given = resolution_views(resolutions@);
    let ghost mut done: Seq<MappedPieceView> = Seq::empty();
    let missing = Resolution::Missing;
    let mut table = MountTable::new();
    let mut side_args: Vec<String> = Vec::new();
    let mut assembler = ArgAssembler::new();
    let mut i: usize = 0;
    proof {
        assert(texts(side_args@) =~= Seq::<Seq<char>>::empty());
        assert(text_pieces_of(done) =~= Seq::<TextPiece>::empty());
    }
    while i < pieces.len()
        invariant
            i <= pieces.len(),
            all == piece_views(pieces@),
            given == resolution_views(resolutions@),
            missing@ == ResolutionView::Missing,
            mapped_pieces(all.take(i as int), given) == Ok::<Seq<MappedPieceView>, PathErrorView>(
                done,
            ),
            table@ == mounts_of(done),
            texts(side_args@) == side_args_of(done),
            assembler@ == assembly_of(text_pieces_of(done)),
        decreases pieces.len() - i,
    {
        let resolution = if i < resolutions.len() {
            &resolutions[i]
        } else {
            &missing
        };
        proof {
            assert(all.take(i + 1).drop_last() == all.take(i as int));
            assert(all.take(i + 1).last() == pieces@[i as int]@);
            assert(resolution@ == resolution_at(given, i as int));
        }
        match map_piece(&pieces[i], resolution) {
            Err(error) => {
                proof {
                    lemma_first_error_wins(all, given, i + 1);
                }
                return Err(error);
            },
            Ok(mapped) => {
                let ghost next = done.push(mapped@);
                proof {
                    assert(next.drop_last() == done);
                    assert(text_pieces_of(next).drop_last() == text_pieces_of(done));
                }
                let MappedPiece { text, incomplete, path } = mapped;
                match path {
                    None => {},
                    Some(found) => {
                        let ghost before = texts(side_args@);
                        side_args.push(HOST_PATH_FLAG.to_owned());
                        side_args.push(found.host_text);
                        side_args.push(CONTAINER_PATH_FLAG.to_owned());
                        side_args.push(found.container_path);
                        proof {
                            assert(texts(side_args@) =~= before + side_args_for(found@));
                        }
                        table.reference(found.host_dir, found.container_dir, found.created);
                    },
                }
                assembler.push(text.as_str(), incomplete);
                proof {
                    done = next;
                }
            },
        }
        i += 1;
    }
    proof {
        assert(all.take(i as int) == all);
    }
    let args = assembler.finish();
    let volumes = table.into_volumes();
    Ok(MappedArguments { volumes, side_args, args })
}

} // verus!
