use vstd::prelude::*;

verus! {

/// The operating-system family the tool runs on.
#[derive(Clone, Copy, Debug, PartialEq, Eq, Structural)]
pub enum OSType {
    MacOS,
    Linux,
    Windows,
    Unknown,
}

/// The platform key under which the runtime catalog files its install
/// sources.
#[derive(Clone, Copy, Debug, PartialEq, Eq, Structural)]
pub enum Platform {
    Linux,
    Macos,
    Windows,
}

/// The catalog platform chosen for an operating system; families outside
/// the three known ones fall back to the linux sources.
pub open spec fn spec_platform_of(os: OSType) -> Platform {
    match os {
        OSType::Windows => Platform::Windows,
        OSType::MacOS => Platform::Macos,
        OSType::Linux => Platform::Linux,
        OSType::Unknown => Platform::Linux,
    }
}

/// Select the catalog platform for the detected operating system.
pub fn detect_platform(os: &OSType) -> (p: Platform)
    ensures
        p == spec_platform_of(*os),
{
    match os {
        OSType::Windows => Platform::Windows,
        OSType::MacOS => Platform::Macos,
        OSType::Linux => Platform::Linux,
        OSType::Unknown => Platform::Linux,
    }
}

#[verifier::external_type_specification]
#[verifier::external_body]
pub struct ExOsInfoInfo(os_info::Info);

/// Relies on os_info::get: a snapshot of what that crate detects about the
/// running system.  The result depends on the machine, so nothing is
/// promised of it.
#[verifier::external_body]
fn os_info_current() -> os_info::Info {
    os_info::get()
}

/// Relies on os_info::Info::os_type: tells the detected family apart, one
/// arm per variant of interest; every family outside the three known ones
/// becomes Unknown.
#[verifier::external_body]
fn os_type_of(info: &os_info::Info) -> OSType {
    match info.os_type() {
        os_info::Type::Macos => OSType::MacOS,
        os_info::Type::Linux => OSType::Linux,
        os_info::Type::Windows => OSType::Windows,
        _ => OSType::Unknown,
    }
}

/// Detect the running operating-system family.  The answer depends on the
/// machine; callers receive one of the four families and decide from it.
pub fn detect_os() -> OSType {
    let info = os_info_current();
    os_type_of(&info)
}

/// Relies on whoami::username: the name of the user the process runs as.
/// The value depends on the running environment, so nothing further is
/// promised of it; the pool renderer takes it as a plain argument.
#[verifier::external_body]
pub fn current_username() -> String {
    whoami::username()
}

/// The group the process pool should run under: the shared staff group on
/// the mac-like family, the user's own group elsewhere.
pub fn pool_group(os: &OSType, user: &str) -> (r: String)
    ensures
        *os == OSType::MacOS ==> r@ == "staff"@,
        *os != OSType::MacOS ==> r@ == user@,
{
    match os {
        OSType::MacOS => String::from_str("staff"),
        _ => user.to_owned(),
    }
}

} // verus!
