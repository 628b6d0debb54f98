use vstd::prelude::*;
use crate::text::concat2;

verus! {

/// The root of the installation.
pub const ROOT_PATH: &'static str = "/opt/bldr";
/// Where package artifacts are downloaded before they are installed.
pub const CACHE_ARTIFACT_PATH: &'static str = "/opt/bldr/cache/artifacts";
/// Where gpg keys are stored.
pub const CACHE_GPG_PATH: &'static str = "/opt/bldr/cache/gpg";
/// Where cryptographic keys are stored.
pub const CACHE_KEY_PATH: &'static str = "/opt/bldr/cache/keys";
/// Where source artifacts are downloaded, extracted and compiled.
pub const CACHE_SRC_PATH: &'static str = "/opt/bldr/cache/src";
/// The root of all installed packages.
pub const PKG_PATH: &'static str = "/opt/bldr/pkgs";
/// The root of all runtime service directories and files.
pub const SVC_PATH: &'static str = "/opt/bldr/svc";

/// `part` appended to the path `base` as a path joins a component: an absolute
/// `part` replaces `base`, else a separator comes between them unless `base` is
/// empty or ends with one.
pub open spec fn join_path(base: Seq<char>, part: Seq<char>) -> Seq<char> {
    if part.len() > 0 && part[0] == '/' {
        part
    } else if base.len() == 0 || base.last() == '/' {
        base + part
    } else {
        base + seq!['/'] + part
    }
}

/// Joins the component `part` to the path `base`.
pub fn join(base: &str, part: &str) -> (r: String)
    ensures
        r@ == join_path(base@, part@),
{
    let pn = part.unicode_len();
    let bn = base.unicode_len();
    if pn > 0 && part.get_char(0) == '/' {
        String::from_str(part)
    } else if bn == 0 || base.get_char(bn - 1) == '/' {
        concat2(base, part)
    } else {
        proof {
            reveal_strlit("/");
        }
        concat2(base, "/").concat(part)
    }
}

/// The root path of a service's configuration, files and data.
pub fn svc_path(service_name: &str) -> (r: String)
    ensures
        r@ == join_path(SVC_PATH@, service_name@),
{
    join(SVC_PATH, service_name)
}

/// The path of a service's configuration.
pub fn svc_config_path(service_name: &str) -> (r: String)
    ensures
        r@ == join_path(join_path(SVC_PATH@, service_name@), "config"@),
{
    join(svc_path(service_name).as_str(), "config")
}

/// The path of a service's data.
pub fn svc_data_path(service_name: &str) -> (r: String)
    ensures
        r@ == join_path(join_path(SVC_PATH@, service_name@), "data"@),
{
    join(svc_path(service_name).as_str(), "data")
}

/// The path of a service's gossiped configuration files.
pub fn svc_files_path(service_name: &str) -> (r: String)
    ensures
        r@ == join_path(join_path(SVC_PATH@, service_name@), "files"@),
{
    join(svc_path(service_name).as_str(), "files")
}

/// The path of a service's hooks; it is internal to the supervisor and not
/// meant to be accessed directly.
pub fn svc_hooks_path(service_name: &str) -> (r: String)
    ensures
        r@ == join_path(join_path(SVC_PATH@, service_name@), "hooks"@),
{
    join(svc_path(service_name).as_str(), "hooks")
}

} // verus!
