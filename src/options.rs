use vstd::prelude::*;

verus! {

/// The port that clients connect to and the daemon listens on, unless set.
pub const DEFAULT_PORT: u16 = 1337;

/// The host that clients connect to, unless set.
pub open spec fn default_host() -> Seq<char> {
    "localhost"@
}

/// Where the daemon keeps its snapshot, unless set.
pub open spec fn default_state_file() -> Seq<char> {
    "/var/lib/qmanager/qmanager.state"@
}

/// The log level, unless set.
pub open spec fn default_loglevel() -> Seq<char> {
    "Info"@
}

/// A combination of transport options that cannot work.
#[derive(Clone, Copy, Debug, PartialEq, Eq, Structural)]
pub enum OptionError {
    /// `insecure` together with a CA certificate.
    InsecureWithCa,
    /// `insecure` together with a daemon certificate or key.
    InsecureWithCert,
    /// Neither `insecure` nor a CA certificate.
    MissingCa,
    /// A daemon without both a certificate and a key.
    MissingCertOrKey,
}

/// Checks that the transport options agree: plain TCP takes no certificates;
/// TLS takes a CA certificate, and a daemon also its certificate and key.
pub fn check_transport(
    insecure: bool,
    has_ca: bool,
    daemon: bool,
    has_cert: bool,
    has_key: bool,
) -> (r: Result<(), OptionError>)
    ensures
        insecure && has_ca ==> r == Err::<(), OptionError>(OptionError::InsecureWithCa),
        insecure && !has_ca && daemon && (has_cert || has_key) ==> r == Err::<(), OptionError>(
            OptionError::InsecureWithCert,
        ),
        !insecure && !has_ca ==> r == Err::<(), OptionError>(OptionError::MissingCa),
        !insecure && has_ca && daemon && !(has_cert && has_key) ==> r == Err::<(), OptionError>(
            OptionError::MissingCertOrKey,
        ),
        r is Ok <==> (insecure && !has_ca && !(daemon && (has_cert || has_key))) || (!insecure
            && has_ca && !(daemon && !(has_cert && has_key))),
{
    if insecure {
        if has_ca {
            return Err(OptionError::InsecureWithCa);
        }
        if daemon && (has_cert || has_key) {
            return Err(OptionError::InsecureWithCert);
        }
    } else {
        if !has_ca {
            return Err(OptionError::MissingCa);
        }
        if daemon && !(has_cert && has_key) {
            return Err(OptionError::MissingCertOrKey);
        }
    }
    Ok(())
}

/// Options as given on the command line; an unset text is empty and an unset
/// port is zero.
#[derive(Debug)]
pub struct Settings {
    pub ca: Option<String>,
    pub insecure: bool,
    pub host: String,
    pub port: u16,
    pub dump_json: bool,
    pub loglevel: String,
    pub state_file: Option<String>,
    pub cert: Option<String>,
    pub key: Option<String>,
    pub pidfile: Option<String>,
    pub notify_url: Option<String>,
}

/// Options as the configuration file gives them.
#[derive(Debug)]
pub struct FileSettings {
    pub ca: Option<String>,
    pub insecure: Option<bool>,
    pub host: Option<String>,
    pub port: Option<u16>,
    pub dump_json: Option<bool>,
    pub loglevel: Option<String>,
    pub state_file: Option<String>,
    pub cert: Option<String>,
    pub key: Option<String>,
    pub pidfile: Option<String>,
    pub notify_url: Option<String>,
}

/// `a` where it is set, else `b`.
pub open spec fn either(a: Option<String>, b: Option<String>) -> Option<String> {
    if a is Some {
        a
    } else {
        b
    }
}

fn pick(a: Option<String>, b: Option<String>) -> (r: Option<String>)
    ensures
        r == either(a, b),
{
    match a {
        Some(x) => Some(x),
        None => b,
    }
}

/// `a` where it is not empty, else `b` where it is set, else `d`.
fn pick_text(a: String, b: Option<String>, d: &str) -> (r: String)
    ensures
        a@.len() > 0 ==> r == a,
        a@.len() == 0 && b is Some ==> r == b->0,
        a@.len() == 0 && b is None ==> r@ == d@,
{
    if a.unicode_len() > 0 {
        a
    } else {
        match b {
            Some(x) => x,
            None => String::from_str(d),
        }
    }
}

/// Merges the configuration file into the command-line options: an option set
/// on the command line wins, else the file's value, else the default. Under
/// `insecure` the file gives no CA certificate. The daemon's own options are
/// merged only for the daemon.
pub fn merge_settings(cli: Settings, file: FileSettings, daemon: bool) -> (r: Settings)
    ensures
        !cli.insecure ==> r.ca == either(cli.ca, file.ca) && r.insecure == (file.insecure
            == Some(true)),
        cli.insecure ==> r.ca == cli.ca && r.insecure,
        cli.port != 0 ==> r.port == cli.port,
        cli.port == 0 && file.port is Some ==> r.port == file.port->0,
        cli.port == 0 && file.port is None ==> r.port == DEFAULT_PORT,
        cli.host@.len() > 0 ==> r.host == cli.host,
        cli.host@.len() == 0 && file.host is Some ==> r.host == file.host->0,
        cli.host@.len() == 0 && file.host is None ==> r.host@ == default_host(),
        r.dump_json == (cli.dump_json || file.dump_json == Some(true)),
        cli.state_file is Some ==> r.state_file == cli.state_file,
        cli.state_file is None && file.state_file is Some ==> r.state_file == file.state_file,
        cli.state_file is None && file.state_file is None ==> r.state_file is Some
            && r.state_file->0@ == default_state_file(),
        daemon ==> r.cert == either(cli.cert, file.cert) && r.key == either(cli.key, file.key)
            && r.pidfile == either(cli.pidfile, file.pidfile) && r.notify_url == either(
            cli.notify_url,
            file.notify_url,
        ),
        !daemon ==> r.cert == cli.cert && r.key == cli.key && r.pidfile == cli.pidfile
            && r.notify_url == cli.notify_url,
        cli.loglevel@.len() > 0 ==> r.loglevel == cli.loglevel,
        cli.loglevel@.len() == 0 && file.loglevel is Some ==> r.loglevel == file.loglevel->0,
        cli.loglevel@.len() == 0 && file.loglevel is None ==> r.loglevel@ == default_loglevel(),
{
    let (ca, insecure) = if cli.insecure {
        (cli.ca, true)
    } else {
        let from_file = match file.insecure {
            Some(b) => b,
            None => false,
        };
        (pick(cli.ca, file.ca), from_file)
    };
    let port = if cli.port != 0 {
        cli.port
    } else {
        match file.port {
            Some(p) => p,
            None => DEFAULT_PORT,
        }
    };
    let host = pick_text(cli.host, file.host, "localhost");
    let dump_json = cli.dump_json || match file.dump_json {
        Some(b) => b,
        None => false,
    };
    let state_file = match cli.state_file {
        Some(p) => Some(p),
        None => match file.state_file {
            Some(p) => Some(p),
            None => Some(String::from_str("/var/lib/qmanager/qmanager.state")),
        },
    };
    let (cert, key, pidfile, notify_url) = if daemon {
        (
            pick(cli.cert, file.cert),
            pick(cli.key, file.key),
            pick(cli.pidfile, file.pidfile),
            pick(cli.notify_url, file.notify_url),
        )
    } else {
        (cli.cert, cli.key, cli.pidfile, cli.notify_url)
    };
    let loglevel = pick_text(cli.loglevel, file.loglevel, "Info");
    Settings {
        ca,
        insecure,
        host,
        port,
        dump_json,
        loglevel,
        state_file,
        cert,
        key,
        pidfile,
        notify_url,
    }
}

} // verus!
