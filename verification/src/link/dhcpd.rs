//! The DHCP server launcher: the lease range of one interface, the file
//! that states it, and the start of the server on that file.
use crate::link::interface::push_text;
use crate::plan::{Action, ActionView, Command, CommandView};
use crate::text::{decimal, push_decimal, texts};
use rand::Rng;
use vstd::prelude::*;
use vstd::string::*;

verus! {

/// A lease range and the options handed out with it.
#[derive(Debug, PartialEq, Eq)]
pub struct DHCPServer {
    pub start: String,
    pub end: String,
    pub interface: String,
    pub dns: String,
    pub netmask: String,
    pub router: String,
    pub lease: u16,
}

/// What a `DHCPServer` stands for in contracts, with its texts and lists as
/// sequences.
pub ghost struct DHCPServerView {
    pub start: Seq<char>,
    pub end: Seq<char>,
    pub interface: Seq<char>,
    pub dns: Seq<char>,
    pub netmask: Seq<char>,
    pub router: Seq<char>,
    pub lease: u16,
}

impl View for DHCPServer {
    type V = DHCPServerView;

    open spec fn view(&self) -> DHCPServerView {
        DHCPServerView {
            start: self.start@,
            end: self.end@,
            interface: self.interface@,
            dns: self.dns@,
            netmask: self.netmask@,
            router: self.router@,
            lease: self.lease,
        }
    }
}

/// The characters that a file stem is drawn from.
pub open spec fn charset() -> Seq<char> {
    "abcdefghijklmnopqrstuvwxyzABCDEFGHIJKLMNOPQRSTUVWXYZ0123456789"@
}

/// Whether `s` is a stem of `length` characters of the charset.
pub open spec fn is_stem(s: Seq<char>, length: nat) -> bool {
    s.len() == length && forall|i: int| 0 <= i < s.len() ==> charset().contains(#[trigger] s[i])
}

/// The directory of the lease files.
pub open spec fn lease_directory() -> Seq<char> {
    "/tmp/dhcp"@
}

/// The path of the lease file with this stem.
pub open spec fn lease_path(stem: Seq<char>) -> Seq<char> {
    "/tmp/dhcp/"@ + stem + ".conf"@
}

/// The lease file: seven lines, one directive each, no newline after the
/// last.
pub open spec fn lease_config(server: DHCPServerView) -> Seq<char> {
    "start "@ + server.start + "\nend "@ + server.end + "\ninterface "@ + server.interface
        + "\noption dns "@ + server.dns + "\noption subnet "@ + server.netmask
        + "\noption router "@ + server.router + "\noption lease "@ + decimal(server.lease as nat)
}

/// `udhcpd PATH`
pub open spec fn server_command(path: Seq<char>) -> CommandView {
    CommandView { program: "udhcpd"@, args: seq![path] }
}

/// The launch of `server` on the lease file with this stem.
pub open spec fn launch_action(server: DHCPServerView, stem: Seq<char>) -> ActionView {
    ActionView::Serve {
        directory: lease_directory(),
        path: lease_path(stem),
        contents: lease_config(server),
        server: server_command(lease_path(stem)),
    }
}

/// A number below `bound`, drawn by `rand::Rng::gen_range` from the
/// generator of the thread. Nothing else is known of it.
#[verifier::external_body]
fn random_below(bound: usize) -> (r: usize)
    requires
        bound > 0,
    ensures
        r < bound,
{
    rand::thread_rng().gen_range(0..bound)
}

/// The character of the charset at `index`, as a text of its own.
pub fn charset_text(index: usize) -> (r: &'static str)
    requires
        index < charset().len(),
    ensures
        r@ == seq![charset()[index as int]],
{
    let all = "abcdefghijklmnopqrstuvwxyzABCDEFGHIJKLMNOPQRSTUVWXYZ0123456789";
    proof {
        reveal_strlit("abcdefghijklmnopqrstuvwxyzABCDEFGHIJKLMNOPQRSTUVWXYZ0123456789");
    }
    let r = all.substring_char(index, index + 1);
    assert(r@ =~= seq![charset()[index as int]]);
    r
}

/// A string of `length` characters, each drawn at random from the letters
/// and digits of the charset.
pub fn generate_random_string(length: usize) -> (r: String)
    ensures
        is_stem(r@, length as nat),
{
    let all = "abcdefghijklmnopqrstuvwxyzABCDEFGHIJKLMNOPQRSTUVWXYZ0123456789";
    let n = all.unicode_len();
    proof {
        reveal_strlit("abcdefghijklmnopqrstuvwxyzABCDEFGHIJKLMNOPQRSTUVWXYZ0123456789");
    }
    let mut out = String::new();
    let mut i: usize = 0;
    while i < length
        invariant
            i <= length,
            n == charset().len(),
            n > 0,
            is_stem(out@, i as nat),
        decreases length - i,
    {
        let index = random_below(n);
        let ghost before = out@;
        out.append(charset_text(index));
        assert(out@ =~= before.push(charset()[index as int]));
        assert forall|k: int| 0 <= k < out@.len() implies charset().contains(
            #[trigger] out@[k],
        ) by {
            if k < before.len() {
                assert(out@[k] == before[k]);
            }
        }
        i += 1;
    }
    out
}

impl DHCPServer {
    /// A server for the range from `start` to `end` on `interface`.
    pub fn new(
        start: String,
        end: String,
        interface: String,
        dns: String,
        netmask: String,
        router: String,
        lease: u16,
    ) -> (r: DHCPServer)
        ensures
            r@ == (DHCPServerView {
                start: start@,
                end: end@,
                interface: interface@,
                dns: dns@,
                netmask: netmask@,
                router: router@,
                lease,
            }),
    {
        DHCPServer { start, end, interface, dns, netmask, router, lease }
    }

    /// The text of the lease file.
    pub fn render(&self) -> (r: String)
        ensures
            r@ == lease_config(self@),
    {
        let mut out = String::from_str("start ");
        out.append(self.start.as_str());
        out.append("\nend ");
        out.append(self.end.as_str());
        out.append("\ninterface ");
        out.append(self.interface.as_str());
        out.append("\noption dns ");
        out.append(self.dns.as_str());
        out.append("\noption subnet ");
        out.append(self.netmask.as_str());
        out.append("\noption router ");
        out.append(self.router.as_str());
        out.append("\noption lease ");
        push_decimal(&mut out, self.lease as u64);
        out
    }

    /// The launch of the server on the lease file with the stem `stem`.
    pub fn launch(&self, stem: &str) -> (action: Action)
        ensures
            action@ == launch_action(self@, stem@),
    {
        let mut path = String::from_str("/tmp/dhcp/");
        path.append(stem);
        path.append(".conf");
        let mut args: Vec<String> = Vec::new();
        push_text(&mut args, path.as_str());
        assert(texts(args@) =~= seq![path@]);
        Action::Serve {
            directory: String::from_str("/tmp/dhcp"),
            path,
            contents: self.render(),
            server: Command { program: String::from_str("udhcpd"), args },
        }
    }

    /// The launch of the server on a lease file whose stem is five
    /// characters drawn at random. The caller writes the file and starts
    /// the server without waiting for it; nothing here learns whether the
    /// server runs.
    pub fn start(&self) -> (action: Action)
        ensures
            exists|stem: Seq<char>| is_stem(stem, 5) && action@ == launch_action(self@, stem),
    {
        let stem = generate_random_string(5);
        self.launch(stem.as_str())
    }
}

} // verus!
