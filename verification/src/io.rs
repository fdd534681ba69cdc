//! What the library asks of the program around it, and what it is told.

use vstd::prelude::*;

use crate::order::texts;
use crate::package::Metadata;

verus! {

/// A request for something on the disk, or for the output of a command.
#[derive(Debug, PartialEq, Eq)]
pub enum Request {
    /// Whether there is something at the path.
    Exists(String),
    /// Whether the path is a symbolic link.
    IsSymlink(String),
    /// The content of the file.
    ReadFile(String),
    /// Rename a file.
    Rename { from: String, to: String },
    /// Run git with the arguments in the directory, for the text that it prints.
    GitText { dir: String, args: Vec<String> },
    /// Run git with the arguments in the directory.
    Git { dir: String, args: Vec<String> },
    /// Run cargo with the arguments in the directory.
    Cargo { dir: String, args: Vec<String> },
    /// The files that belong to the package in the directory.
    PackageFiles(String),
    /// The entries of the directory.
    ReadDir(String),
    /// What cargo says of the workspace of the manifest.
    ManifestMetadata(String),
    /// The absolute form of the path, with all symbolic links resolved.
    Canonicalize(String),
}

/// What a request stands for.
pub ghost enum RequestView {
    Exists(Seq<char>),
    IsSymlink(Seq<char>),
    ReadFile(Seq<char>),
    Rename { from: Seq<char>, to: Seq<char> },
    GitText { dir: Seq<char>, args: Seq<Seq<char>> },
    Git { dir: Seq<char>, args: Seq<Seq<char>> },
    Cargo { dir: Seq<char>, args: Seq<Seq<char>> },
    PackageFiles(Seq<char>),
    ReadDir(Seq<char>),
    ManifestMetadata(Seq<char>),
    Canonicalize(Seq<char>),
}

impl View for Request {
    type V = RequestView;

    open spec fn view(&self) -> RequestView {
        match *self {
            Request::Exists(path) => RequestView::Exists(path@),
            Request::IsSymlink(path) => RequestView::IsSymlink(path@),
            Request::ReadFile(path) => RequestView::ReadFile(path@),
            Request::Rename { from, to } => RequestView::Rename { from: from@, to: to@ },
            Request::GitText { dir, args } => RequestView::GitText {
                dir: dir@,
                args: texts(args@),
            },
            Request::Git { dir, args } => RequestView::Git { dir: dir@, args: texts(args@) },
            Request::Cargo { dir, args } => RequestView::Cargo { dir: dir@, args: texts(args@) },
            Request::PackageFiles(dir) => RequestView::PackageFiles(dir@),
            Request::ReadDir(dir) => RequestView::ReadDir(dir@),
            Request::ManifestMetadata(path) => RequestView::ManifestMetadata(path@),
            Request::Canonicalize(path) => RequestView::Canonicalize(path@),
        }
    }
}

/// What an optional request stands for.
pub open spec fn asked(request: Option<Request>) -> Option<RequestView> {
    match request {
        Some(request) => Some(request@),
        None => None,
    }
}

/// The output of git.
#[derive(Debug, PartialEq, Eq)]
pub struct GitOutput {
    pub success: bool,
    pub stdout: Vec<u8>,
    pub stderr: String,
}

/// The output of cargo.
#[derive(Debug, PartialEq, Eq)]
pub struct CargoOutput {
    pub success: bool,
    pub stdout: String,
    pub stderr: String,
}

/// An entry of a directory.
#[derive(Debug, PartialEq, Eq)]
pub struct DirEntry {
    pub path: String,
    pub is_dir: bool,
}

/// Why the files of a package could not be listed.
#[derive(Debug, PartialEq, Eq)]
pub enum ListError {
    /// A directory of the package could not be read.
    CannotReadDir(String),
    /// A file is not inside the directory of the package.
    OutsidePackage,
    /// Cargo could not be run.
    CannotRunCargo(String),
    /// Cargo failed, with this on its standard error.
    CargoFailed(String),
    /// The reply was for another request.
    UnexpectedReply,
}

/// The reply to a request. A text in place of a result says why there is none.
#[derive(Debug, PartialEq)]
pub enum Reply {
    /// To `Exists` and `IsSymlink`.
    Flag(bool),
    /// To `ReadFile`.
    Content(Result<Vec<u8>, String>),
    /// To `Rename`.
    Renamed(Result<(), String>),
    /// To `GitText`: what git printed, without white space around it.
    Text(Result<String, String>),
    /// To `Git`.
    Git(Result<GitOutput, String>),
    /// To `Cargo`.
    Cargo(Result<CargoOutput, String>),
    /// To `PackageFiles`.
    Files(Result<Vec<String>, ListError>),
    /// To `ReadDir`.
    Entries(Result<Vec<DirEntry>, String>),
    /// To `ManifestMetadata`.
    Metadata(Result<Metadata, String>),
    /// To `Canonicalize`.
    Canonical(Result<String, String>),
}

/// The reply is one to the request.
pub open spec fn answers(reply: Reply, request: RequestView) -> bool {
    match request {
        RequestView::Exists(_) => reply is Flag,
        RequestView::IsSymlink(_) => reply is Flag,
        RequestView::ReadFile(_) => reply is Content,
        RequestView::Rename { .. } => reply is Renamed,
        RequestView::GitText { .. } => reply is Text,
        RequestView::Git { .. } => reply is Git,
        RequestView::Cargo { .. } => reply is Cargo,
        RequestView::PackageFiles(_) => reply is Files,
        RequestView::ReadDir(_) => reply is Entries,
        RequestView::ManifestMetadata(_) => reply is Metadata,
        RequestView::Canonicalize(_) => reply is Canonical,
    }
}

/// What a request stands for is a request of the same kind, with the same texts.
pub proof fn law_request_view(r: Request)
    ensures
        r matches Request::Exists(path) ==> r@ == RequestView::Exists(path@),
        r matches Request::IsSymlink(path) ==> r@ == RequestView::IsSymlink(path@),
        r matches Request::ReadFile(path) ==> r@ == RequestView::ReadFile(path@),
        r matches Request::Rename { from, to } ==> r@ == (RequestView::Rename {
            from: from@,
            to: to@,
        }),
        r matches Request::GitText { dir, args } ==> r@ == (RequestView::GitText {
            dir: dir@,
            args: texts(args@),
        }),
        r matches Request::Git { dir, args } ==> r@ == (RequestView::Git {
            dir: dir@,
            args: texts(args@),
        }),
        r matches Request::Cargo { dir, args } ==> r@ == (RequestView::Cargo {
            dir: dir@,
            args: texts(args@),
        }),
        r matches Request::PackageFiles(dir) ==> r@ == RequestView::PackageFiles(dir@),
        r matches Request::ReadDir(dir) ==> r@ == RequestView::ReadDir(dir@),
        r matches Request::ManifestMetadata(path) ==> r@ == RequestView::ManifestMetadata(path@),
        r matches Request::Canonicalize(path) ==> r@ == RequestView::Canonicalize(path@),
        asked(Some(r)) == Some(r@),
        asked(None) is None,
{
}

} // verus!
