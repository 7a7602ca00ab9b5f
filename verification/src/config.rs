//! How a host is reached.

use vstd::prelude::*;

verus! {

/// How a host is reached.
#[derive(Debug, Clone)]
pub enum HostKind {
    /// over ssh
    Ssh,
    /// the docker container of this name
    DockerContainer(String),
    /// the devcontainer of this local folder
    DockerFolder(String),
}

/// What a `HostKind` says.
pub enum HostKindView {
    Ssh,
    DockerContainer(Seq<char>),
    DockerFolder(Seq<char>),
}

impl View for HostKind {
    type V = HostKindView;

    open spec fn view(&self) -> HostKindView {
        match self {
            HostKind::Ssh => HostKindView::Ssh,
            HostKind::DockerContainer(name) => HostKindView::DockerContainer(name@),
            HostKind::DockerFolder(folder) => HostKindView::DockerFolder(folder@),
        }
    }
}

} // verus!
