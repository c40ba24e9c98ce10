//! The launchd agent that starts the daemon at login.

use vstd::prelude::*;
use vstd::string::*;

verus! {

/// Label of the launchd agent.
pub fn plist_label() -> (r: &'static str)
    ensures
        r@ == "com.clipwallet.agent"@,
{
    "com.clipwallet.agent"
}

/// File name of the agent's plist in `~/Library/LaunchAgents`.
pub fn plist_file_name() -> (r: &'static str)
    ensures
        r@ == "com.clipwallet.agent.plist"@,
{
    "com.clipwallet.agent.plist"
}

/// Where the binary the agent runs is installed.
pub fn install_path() -> (r: &'static str)
    ensures
        r@ == "/usr/local/bin/clipwallet"@,
{
    "/usr/local/bin/clipwallet"
}

/// The plist up to the log directory of standard output.
pub open spec fn plist_head() -> Seq<char> {
    "<?xml version=\"1.0\" encoding=\"UTF-8\"?>\n<!DOCTYPE plist PUBLIC \"-//Apple//DTD PLIST 1.0//EN\"\n    \"http://www.apple.com/DTDs/PropertyList-1.0.dtd\">\n<plist version=\"1.0\">\n<dict>\n    <key>Label</key>\n    <string>com.clipwallet.agent</string>\n    <key>ProgramArguments</key>\n    <array>\n        <string>/usr/local/bin/clipwallet</string>\n        <string>run</string>\n    </array>\n    <key>RunAtLoad</key>\n    <true/>\n    <key>KeepAlive</key>\n    <dict><key>SuccessfulExit</key><false/></dict>\n    <key>ThrottleInterval</key>\n    <integer>5</integer>\n    <key>StandardOutPath</key>\n    <string>"@
}

/// The plist between the two log paths' home directories.
pub open spec fn plist_mid() -> Seq<char> {
    "/.clipwallet/logs/out.log</string>\n    <key>StandardErrorPath</key>\n    <string>"@
}

/// The rest of the plist.
pub open spec fn plist_tail() -> Seq<char> {
    "/.clipwallet/logs/err.log</string>\n    <key>EnvironmentVariables</key>\n    <dict><key>RUST_LOG</key><string>info</string></dict>\n</dict>\n</plist>"@
}

/// The agent's plist for the user whose home directory is `home`: it runs
/// `clipwallet run` at login, restarts it after a crash (at most every five
/// seconds), and sends its output to `~/.clipwallet/logs`.
pub open spec fn spec_plist(home: Seq<char>) -> Seq<char> {
    plist_head() + home + plist_mid() + home + plist_tail()
}

/// The agent's plist (see [`spec_plist`]).
pub fn plist_contents(home: &str) -> (r: String)
    ensures
        r@ == spec_plist(home@),
{
    let mut s = String::from_str("<?xml version=\"1.0\" encoding=\"UTF-8\"?>\n<!DOCTYPE plist PUBLIC \"-//Apple//DTD PLIST 1.0//EN\"\n    \"http://www.apple.com/DTDs/PropertyList-1.0.dtd\">\n<plist version=\"1.0\">\n<dict>\n    <key>Label</key>\n    <string>com.clipwallet.agent</string>\n    <key>ProgramArguments</key>\n    <array>\n        <string>/usr/local/bin/clipwallet</string>\n        <string>run</string>\n    </array>\n    <key>RunAtLoad</key>\n    <true/>\n    <key>KeepAlive</key>\n    <dict><key>SuccessfulExit</key><false/></dict>\n    <key>ThrottleInterval</key>\n    <integer>5</integer>\n    <key>StandardOutPath</key>\n    <string>");
    s.append(home);
    s.append("/.clipwallet/logs/out.log</string>\n    <key>StandardErrorPath</key>\n    <string>");
    s.append(home);
    s.append("/.clipwallet/logs/err.log</string>\n    <key>EnvironmentVariables</key>\n    <dict><key>RUST_LOG</key><string>info</string></dict>\n</dict>\n</plist>");
    s
}

} // verus!
