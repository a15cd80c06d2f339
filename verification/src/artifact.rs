//! Package artifacts and the file names that encode their state.
//!
//! An artifact is named `<package>_<version>_<arch>.deb`. The name of its
//! package decides which service it belongs to; the names
//! `<package>_<version>_backup.deb` and `<package>_<version>_installed.deb`
//! mark the snapshot taken before an update and the artifact that was last
//! installed with success.

use vstd::prelude::*;
use vstd::string::*;
use crate::text::{field, first_index_of, nth_field};

verus! {

/// The service that a package belongs to.
#[derive(Debug, Clone, PartialEq, Eq)]
pub enum ServiceType {
    Gateway,
    Media,
    Launcher,
    Other(String),
}

/// Mathematical value of a [`ServiceType`].
pub enum ServiceKind {
    Gateway,
    Media,
    Launcher,
    Other(Seq<char>),
}

impl View for ServiceType {
    type V = ServiceKind;

    open spec fn view(&self) -> ServiceKind {
        match self {
            ServiceType::Gateway => ServiceKind::Gateway,
            ServiceType::Media => ServiceKind::Media,
            ServiceType::Launcher => ServiceKind::Launcher,
            ServiceType::Other(name) => ServiceKind::Other(name@),
        }
    }
}

/// Mathematical value of a package artifact: its file name and the address
/// to fetch it from.
pub struct ArtifactView {
    pub filename: Seq<char>,
    pub source_url: Seq<char>,
}

/// The artifact that a pair of file name and address stands for.
pub open spec fn artifact_view(package: (String, String)) -> ArtifactView {
    ArtifactView { filename: package.0@, source_url: package.1@ }
}

/// The artifacts of a list of pairs, in order.
pub open spec fn artifact_views(list: Seq<(String, String)>) -> Seq<ArtifactView> {
    Seq::new(list.len(), |i: int| artifact_view(list[i]))
}

/// The package name that a file name starts with: all before the first `_`.
pub open spec fn package_of(filename: Seq<char>) -> Seq<char> {
    filename.take(first_index_of(filename, '_'))
}

/// The version that a file name carries: its second `_`-separated piece.
pub open spec fn version_of(filename: Seq<char>) -> Option<Seq<char>> {
    nth_field(filename, '_', 1)
}

/// The service that the package `package` belongs to.
pub open spec fn service_of(package: Seq<char>) -> ServiceKind {
    if "luffy-gateway"@.is_prefix_of(package) {
        ServiceKind::Gateway
    } else if "luffy-media"@.is_prefix_of(package) {
        ServiceKind::Media
    } else if "luffy-launcher"@.is_prefix_of(package) {
        ServiceKind::Launcher
    } else {
        ServiceKind::Other(package)
    }
}

/// The unit name under which the host's service manager knows a service.
pub open spec fn unit_name(service: ServiceKind) -> Seq<char> {
    match service {
        ServiceKind::Gateway => "luffy-gateway"@,
        ServiceKind::Media => "luffy-media"@,
        ServiceKind::Launcher => "luffy-launcher"@,
        ServiceKind::Other(name) => name,
    }
}

/// The name by which a service is reported to the health registry.
pub open spec fn registry_name(service: ServiceKind) -> Seq<char> {
    match service {
        ServiceKind::Gateway => "Gateway"@,
        ServiceKind::Media => "Media"@,
        ServiceKind::Launcher => "Launcher"@,
        ServiceKind::Other(name) => name,
    }
}

/// Name of the snapshot of `package` at `version`.
pub open spec fn backup_name(package: Seq<char>, version: Seq<char>) -> Seq<char> {
    package + "_"@ + version + "_backup.deb"@
}

/// Name that marks `package` at `version` as installed.
pub open spec fn marker_name(package: Seq<char>, version: Seq<char>) -> Seq<char> {
    package + "_"@ + version + "_installed.deb"@
}

/// Name that the artifact `filename` gets once it has been installed; `None`
/// where the file name carries no version.
pub open spec fn installed_name(filename: Seq<char>) -> Option<Seq<char>> {
    match version_of(filename) {
        Some(version) => Some(marker_name(package_of(filename), version)),
        None => None,
    }
}

impl ServiceType {
    /// Whether `self` and `other` are the same service.
    pub fn same_as(&self, other: &ServiceType) -> (r: bool)
        ensures
            r == (self@ == other@),
    {
        match (self, other) {
            (ServiceType::Gateway, ServiceType::Gateway) => true,
            (ServiceType::Media, ServiceType::Media) => true,
            (ServiceType::Launcher, ServiceType::Launcher) => true,
            (ServiceType::Other(a), ServiceType::Other(b)) => crate::text::same_text(
                a.as_str(),
                b.as_str(),
            ),
            _ => false,
        }
    }

    /// A copy of `self`.
    pub fn duplicate(&self) -> (r: ServiceType)
        ensures
            r@ == self@,
    {
        match self {
            ServiceType::Gateway => ServiceType::Gateway,
            ServiceType::Media => ServiceType::Media,
            ServiceType::Launcher => ServiceType::Launcher,
            ServiceType::Other(name) => ServiceType::Other(name.clone()),
        }
    }

    /// The name by which this service is reported to the health registry.
    pub fn registry_name(&self) -> (r: String)
        ensures
            r@ == registry_name(self@),
    {
        match self {
            ServiceType::Gateway => String::from_str("Gateway"),
            ServiceType::Media => String::from_str("Media"),
            ServiceType::Launcher => String::from_str("Launcher"),
            ServiceType::Other(name) => name.clone(),
        }
    }
}

/// The package name that `filename` starts with.
pub fn package_name(filename: &str) -> (r: String)
    ensures
        r@ == package_of(filename@),
{
    match field(filename, '_', 0) {
        Some(name) => name,
        None => String::new(),
    }
}

/// Name of the snapshot of `package` at `version`.
pub fn backup_filename(package: &str, version: &str) -> (r: String)
    ensures
        r@ == backup_name(package@, version@),
{
    String::from_str(package).concat("_").concat(version).concat("_backup.deb")
}

/// Name that the artifact `filename` gets once it has been installed.
pub fn installed_filename(filename: &str) -> (r: Option<String>)
    ensures
        r is Some == installed_name(filename@) is Some,
        r matches Some(name) ==> installed_name(filename@) == Some(name@),
{
    match field(filename, '_', 1) {
        Some(version) => {
            let package = package_name(filename);
            Some(package.concat("_").concat(version.as_str()).concat("_installed.deb"))
        },
        None => None,
    }
}

} // verus!
