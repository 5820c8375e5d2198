use vstd::prelude::*;

verus! {

/// The operating systems that have a run-at-login mechanism here.
#[derive(Clone, Copy, Debug, PartialEq, Eq, Structural)]
pub enum Platform {
    Windows,
    MacOs,
    Linux,
    Other,
}

/// The registry key under the current user whose values run at login.
pub const RUN_KEY: &'static str = "Software\\Microsoft\\Windows\\CurrentVersion\\Run";

/// The name of the agent's value under the run key.
pub const RUN_VALUE_NAME: &'static str = "SPKDesktop";

/// Where the agent's run-at-login entry lives.
#[derive(Clone, Debug)]
pub enum AutostartLocation {
    /// The value `name` under the current user's registry key `key`.
    RegistryValue { key: String, name: String },
    /// A file.
    File { path: String },
}

/// The run-at-login entry to write.
#[derive(Clone, Debug)]
pub enum AutostartEntry {
    /// A registry value holding the command line.
    RegistryValue { key: String, name: String, command: String },
    /// A file with the given content.
    File { path: String, content: String },
}

/// How removing an entry went.
#[derive(Clone, Debug)]
pub enum RemovalError {
    /// There was no entry.
    NotFound,
    /// Removal failed for another reason, described.
    Failed(String),
}

/// The launch agent file under a home directory.
pub open spec fn launch_agent_path(home: Seq<char>) -> Seq<char> {
    home + "/Library/LaunchAgents/network.spk.desktop.plist"@
}

/// The desktop entry under a home directory.
pub open spec fn desktop_entry_path(home: Seq<char>) -> Seq<char> {
    home + "/.config/autostart/spk-desktop.desktop"@
}

/// The text of the launch agent before the executable's path.
pub const PLIST_HEAD: &'static str = "<?xml version=\"1.0\" encoding=\"UTF-8\"?>
<!DOCTYPE plist PUBLIC \"-//Apple//DTD PLIST 1.0//EN\" \"http://www.apple.com/DTDs/PropertyList-1.0.dtd\">
<plist version=\"1.0\">
<dict>
    <key>Label</key>
    <string>network.spk.desktop</string>
    <key>ProgramArguments</key>
    <array>
        <string>";

/// The text of the launch agent after the executable's path.
pub const PLIST_TAIL: &'static str = "</string>
        <string>--minimized</string>
    </array>
    <key>RunAtLoad</key>
    <true/>
    <key>KeepAlive</key>
    <false/>
    <key>LSUIElement</key>
    <true/>
</dict>
</plist>";

/// The text of the desktop entry before the executable's path.
pub const DESKTOP_HEAD: &'static str = "[Desktop Entry]
Type=Application
Name=SPK Desktop
Comment=SPK Network Desktop Agent
Exec=\"";

/// The text of the desktop entry after the executable's path.
pub const DESKTOP_TAIL: &'static str = "\" --minimized
Icon=spk-desktop
Terminal=false
Categories=Network;
StartupNotify=false
X-GNOME-Autostart-enabled=true
";

/// The command line that starts the executable hidden.
pub open spec fn minimized_command(exe: Seq<char>) -> Seq<char> {
    "\""@ + exe + "\" --minimized"@
}

/// Where the entry lives on `platform`, for a user whose home directory is `home`.
pub open spec fn location_is(l: AutostartLocation, platform: Platform, home: Seq<char>) -> bool {
    match platform {
        Platform::Windows => l matches AutostartLocation::RegistryValue { key, name } && key@ == RUN_KEY@
            && name@ == RUN_VALUE_NAME@,
        Platform::MacOs => l matches AutostartLocation::File { path } && path@ == launch_agent_path(home),
        Platform::Linux => l matches AutostartLocation::File { path } && path@ == desktop_entry_path(home),
        Platform::Other => false,
    }
}

/// The entry that starts the executable `exe` hidden at login on `platform`.
pub open spec fn entry_is(e: AutostartEntry, platform: Platform, home: Seq<char>, exe: Seq<char>) -> bool {
    match platform {
        Platform::Windows => e matches AutostartEntry::RegistryValue { key, name, command } && key@ == RUN_KEY@
            && name@ == RUN_VALUE_NAME@ && command@ == minimized_command(exe),
        Platform::MacOs => e matches AutostartEntry::File { path, content } && path@ == launch_agent_path(home)
            && content@ == PLIST_HEAD@ + exe + PLIST_TAIL@,
        Platform::Linux => e matches AutostartEntry::File { path, content } && path@ == desktop_entry_path(home)
            && content@ == DESKTOP_HEAD@ + exe + DESKTOP_TAIL@,
        Platform::Other => false,
    }
}

fn joined_triple(a: &str, b: &str, c: &str) -> (r: String)
    ensures
        r@ == a@ + b@ + c@,
{
    let mut s = String::from_str(a);
    s.append(b);
    s.append(c);
    s
}

fn joined_pair(a: &str, b: &str) -> (r: String)
    ensures
        r@ == a@ + b@,
{
    let mut s = String::from_str(a);
    s.append(b);
    s
}

/// The refusal on a platform without a run-at-login mechanism.
pub open spec fn unsupported_message() -> Seq<char> {
    "Auto-start not supported on this platform"@
}

fn unsupported() -> (r: String)
    ensures
        r@ == unsupported_message(),
{
    String::from_str("Auto-start not supported on this platform")
}

/// Where the run-at-login entry lives; an error on a platform without one.
pub fn autostart_location(platform: Platform, home: &str) -> (r: Result<AutostartLocation, String>)
    ensures
        platform == Platform::Other <==> r is Err,
        r matches Err(m) ==> m@ == unsupported_message(),
        r matches Ok(l) ==> location_is(l, platform, home@),
{
    match platform {
        Platform::Windows => {
            let key = String::from_str(RUN_KEY);
            let name = String::from_str(RUN_VALUE_NAME);
            assert(key@ == RUN_KEY@);
            assert(name@ == RUN_VALUE_NAME@);
            Ok(AutostartLocation::RegistryValue { key, name })
        },
        Platform::MacOs => Ok(AutostartLocation::File {
            path: joined_pair(home, "/Library/LaunchAgents/network.spk.desktop.plist"),
        }),
        Platform::Linux => Ok(AutostartLocation::File {
            path: joined_pair(home, "/.config/autostart/spk-desktop.desktop"),
        }),
        Platform::Other => Err(unsupported()),
    }
}

/// The entry to write so that the executable at `exe` starts hidden at login; an error on a
/// platform without a run-at-login mechanism.
pub fn enable_autostart(platform: Platform, home: &str, exe: &str) -> (r: Result<AutostartEntry, String>)
    ensures
        platform == Platform::Other <==> r is Err,
        r matches Err(m) ==> m@ == unsupported_message(),
        r matches Ok(e) ==> entry_is(e, platform, home@, exe@),
{
    match platform {
        Platform::Windows => Ok(AutostartEntry::RegistryValue {
            key: String::from_str(RUN_KEY),
            name: String::from_str(RUN_VALUE_NAME),
            command: joined_triple("\"", exe, "\" --minimized"),
        }),
        Platform::MacOs => Ok(AutostartEntry::File {
            path: joined_pair(home, "/Library/LaunchAgents/network.spk.desktop.plist"),
            content: joined_triple(PLIST_HEAD, exe, PLIST_TAIL),
        }),
        Platform::Linux => Ok(AutostartEntry::File {
            path: joined_pair(home, "/.config/autostart/spk-desktop.desktop"),
            content: joined_triple(DESKTOP_HEAD, exe, DESKTOP_TAIL),
        }),
        Platform::Other => Err(unsupported()),
    }
}

/// The result of disabling, from how removing the entry went: an entry that was not there
/// counts as removed.
pub fn disable_autostart(platform: Platform, removal: Result<(), RemovalError>) -> (r: Result<(), String>)
    ensures
        platform == Platform::Other ==> (r matches Err(m) && m@ == unsupported_message()),
        platform != Platform::Other ==> (r is Ok <==> (removal is Ok || removal matches Err(RemovalError::NotFound))),
        platform != Platform::Other ==> (removal matches Err(RemovalError::Failed(e)) ==> r == Err::<(), String>(e)),
{
    if platform == Platform::Other {
        return Err(unsupported());
    }
    match removal {
        Ok(()) => Ok(()),
        Err(RemovalError::NotFound) => Ok(()),
        Err(RemovalError::Failed(e)) => Err(e),
    }
}

/// Whether the agent starts at login, given whether its entry is present.
pub fn is_autostart_enabled(platform: Platform, entry_present: bool) -> (r: bool)
    ensures
        r == (platform != Platform::Other && entry_present),
{
    platform != Platform::Other && entry_present
}

} // verus!
