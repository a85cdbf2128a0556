//! One network interface, known by its name alone. Every query reads the
//! operating system anew: a method here gives the command to run, and a
//! reader takes what the command printed.
use crate::plan::{Command, CommandView};
use crate::text::{decimal, push_decimal, same_text, split_tokens, texts, tokens};
use vstd::prelude::*;
use vstd::string::*;

verus! {

/// A handle on the interface of this name.
#[derive(Debug, PartialEq, Eq)]
pub struct Interface {
    pub name: String,
}

/// The link-management program with these arguments.
pub open spec fn ip(args: Seq<Seq<char>>) -> CommandView {
    CommandView { program: "ip"@, args }
}

/// `ip link add NAME type KIND`
pub open spec fn create_command(name: Seq<char>, kind: Seq<char>) -> CommandView {
    ip(seq!["link"@, "add"@, name, "type"@, kind])
}

/// `ip link show NAME`
pub open spec fn show_command(name: Seq<char>) -> CommandView {
    ip(seq!["link"@, "show"@, name])
}

/// `ip link set NAME name NEW`
pub open spec fn rename_command(name: Seq<char>, new_name: Seq<char>) -> CommandView {
    ip(seq!["link"@, "set"@, name, "name"@, new_name])
}

/// `ip link set NAME up`
pub open spec fn up_command(name: Seq<char>) -> CommandView {
    ip(seq!["link"@, "set"@, name, "up"@])
}

/// `ip link set NAME down`
pub open spec fn down_command(name: Seq<char>) -> CommandView {
    ip(seq!["link"@, "set"@, name, "down"@])
}

/// `ip addr add ADDRESS/PREFIX dev NAME`
pub open spec fn add_address_command(name: Seq<char>, address: Seq<char>, prefix: u8)
    -> CommandView {
    ip(seq!["addr"@, "add"@, address + "/"@ + decimal(prefix as nat), "dev"@, name])
}

/// `ip addr flush dev NAME`
pub open spec fn flush_command(name: Seq<char>) -> CommandView {
    ip(seq!["addr"@, "flush"@, "dev"@, name])
}

/// `ip route show dev NAME`
pub open spec fn routes_command(name: Seq<char>) -> CommandView {
    ip(seq!["route"@, "show"@, "dev"@, name])
}

/// `ip link set dev NAME alias "DESCRIPTION"`, the quotation marks being
/// part of the alias.
pub open spec fn describe_command(name: Seq<char>, description: Seq<char>) -> CommandView {
    ip(seq!["link"@, "set"@, "dev"@, name, "alias"@, "\""@ + description + "\""@])
}

/// `ip link delete dev NAME`
pub open spec fn delete_command(name: Seq<char>) -> CommandView {
    ip(seq!["link"@, "delete"@, "dev"@, name])
}

/// `ip link set dev NAME master MASTER`
pub open spec fn master_command(name: Seq<char>, master: Seq<char>) -> CommandView {
    ip(seq!["link"@, "set"@, "dev"@, name, "master"@, master])
}

/// `ip link set dev NAME nomaster`
pub open spec fn nomaster_command(name: Seq<char>) -> CommandView {
    ip(seq!["link"@, "set"@, "dev"@, name, "nomaster"@])
}

/// The index of the first token equal to `word`, looking from `from` on.
pub open spec fn position_from(t: Seq<Seq<char>>, word: Seq<char>, from: nat) -> Option<nat>
    decreases t.len() - from,
{
    if from >= t.len() {
        None
    } else if t[from as int] == word {
        Some(from)
    } else {
        position_from(t, word, from + 1)
    }
}

/// The index of the first token equal to `word`.
pub open spec fn position(t: Seq<Seq<char>>, word: Seq<char>) -> Option<nat> {
    position_from(t, word, 0)
}

/// The token that follows the first `default via`, looking from `from` on.
pub open spec fn gateway_from(t: Seq<Seq<char>>, from: nat) -> Option<Seq<char>>
    decreases t.len() - from,
{
    if from + 2 >= t.len() {
        None
    } else if t[from as int] == "default"@ && t[from as int + 1] == "via"@ {
        Some(t[from as int + 2])
    } else {
        gateway_from(t, from + 1)
    }
}

/// The default gateway in a route listing: the token that follows `via` in
/// the first `default via GATEWAY ...`. `None` where the listing has no
/// such route.
pub open spec fn gateway_of(output: Seq<char>) -> Option<Seq<char>> {
    gateway_from(tokens(output), 0)
}

/// A token without its first and its last character, which are the
/// quotation marks of an alias; empty where nothing stands between them.
pub open spec fn unquoted(token: Seq<char>) -> Seq<char> {
    if token.len() > 2 {
        token.subrange(1, token.len() - 1)
    } else {
        Seq::empty()
    }
}

/// The description in a link listing: the token that follows the first
/// `alias`, without its quotation marks. A link whose alias was never set
/// is listed without `alias`, and its description is empty. `None` where
/// the listing ends at `alias`.
pub open spec fn description_of(output: Seq<char>) -> Option<Seq<char>> {
    let t = tokens(output);
    match position(t, "alias"@) {
        Some(k) => if k + 1 < t.len() {
            Some(unquoted(t[k as int + 1]))
        } else {
            None
        },
        None => Some(Seq::empty()),
    }
}

/// The hardware address in a link listing: the token that follows the
/// first `link/ether`. `None` where there is none.
pub open spec fn hardware_address_of(output: Seq<char>) -> Option<Seq<char>> {
    let t = tokens(output);
    match position(t, "link/ether"@) {
        Some(k) => if k + 1 < t.len() {
            Some(t[k as int + 1])
        } else {
            None
        },
        None => None,
    }
}

/// Whether `word` occurs in `s`.
pub open spec fn contains_text(s: Seq<char>, word: Seq<char>) -> bool {
    exists|i: int| occurs_at(s, word, i)
}

/// Whether `word` stands in `s` at index `i`.
pub open spec fn occurs_at(s: Seq<char>, word: Seq<char>, i: int) -> bool {
    0 <= i && i + word.len() <= s.len() && s.subrange(i, i + word.len()) == word
}

/// Whether a link listing shows the interface as up: whether it holds `UP`.
pub open spec fn shows_up(output: Seq<char>) -> bool {
    contains_text(output, "UP"@)
}

/// Appends a copy of `s` to `v`.
pub fn push_text(v: &mut Vec<String>, s: &str)
    ensures
        texts(final(v)@) == texts(old(v)@).push(s@),
{
    v.push(String::from_str(s));
    assert(texts(v@) =~= texts(old(v)@).push(s@));
}

/// The link-management program with these arguments.
pub fn ip_command(args: Vec<String>) -> (c: Command)
    ensures
        c@ == ip(texts(args@)),
{
    Command { program: String::from_str("ip"), args }
}

/// The index of the first of `tokens` equal to `word`.
pub fn find_token(tokens: &Vec<String>, word: &str) -> (r: Option<usize>)
    ensures
        match r {
            Some(k) => k < tokens.len() && position(texts(tokens@), word@) == Some(k as nat),
            None => position(texts(tokens@), word@).is_none(),
        },
{
    let mut i: usize = 0;
    while i < tokens.len()
        invariant
            i <= tokens.len(),
            position(texts(tokens@), word@) == position_from(texts(tokens@), word@, i as nat),
        decreases tokens.len() - i,
    {
        if same_text(tokens[i].as_str(), word) {
            return Some(i);
        }
        i += 1;
    }
    None
}

/// Whether `word` occurs in `s`.
pub fn find_text(s: &str, word: &str) -> (r: bool)
    ensures
        r == contains_text(s@, word@),
{
    let n = s.unicode_len();
    let m = word.unicode_len();
    if m > n {
        assert forall|i: int| !occurs_at(s@, word@, i) by {}
        return false;
    }
    let last = n - m;
    let mut i: usize = 0;
    while i < last
        invariant
            n == s@.len(),
            m == word@.len(),
            last == n - m,
            i <= last,
            forall|j: int| 0 <= j < i ==> !occurs_at(s@, word@, j),
        decreases last - i,
    {
        if same_text(s.substring_char(i, i + m), word) {
            assert(occurs_at(s@, word@, i as int));
            return true;
        }
        i += 1;
    }
    if same_text(s.substring_char(last, n), word) {
        assert(occurs_at(s@, word@, last as int));
        return true;
    }
    assert forall|j: int| !occurs_at(s@, word@, j) by {}
    false
}

/// The characters of `token` between its first and its last.
pub fn unquote(token: &str) -> (r: String)
    ensures
        r@ == unquoted(token@),
{
    let n = token.unicode_len();
    if n > 2 {
        String::from_str(token.substring_char(1, n - 1))
    } else {
        String::new()
    }
}

impl Interface {
    /// The handle on the interface named `name`. Nothing is asked of the
    /// operating system.
    pub fn get_from_name(name: &str) -> (r: Interface)
        ensures
            r.name@ == name@,
    {
        Interface { name: String::from_str(name) }
    }

    /// The command that creates a link named `name` of the given kind.
    pub fn create(name: &str, kind: &str) -> (c: Command)
        ensures
            c@ == create_command(name@, kind@),
    {
        let mut args: Vec<String> = Vec::new();
        push_text(&mut args, "link");
        push_text(&mut args, "add");
        push_text(&mut args, name);
        push_text(&mut args, "type");
        push_text(&mut args, kind);
        assert(texts(args@) =~= seq!["link"@, "add"@, name@, "type"@, kind@]);
        ip_command(args)
    }

    /// The command that succeeds if and only if the interface is there.
    pub fn is_present(&self) -> (c: Command)
        ensures
            c@ == show_command(self.name@),
    {
        self.show()
    }

    /// The command that lists the link.
    pub fn show(&self) -> (c: Command)
        ensures
            c@ == show_command(self.name@),
    {
        let mut args: Vec<String> = Vec::new();
        push_text(&mut args, "link");
        push_text(&mut args, "show");
        push_text(&mut args, self.name.as_str());
        assert(texts(args@) =~= seq!["link"@, "show"@, self.name@]);
        ip_command(args)
    }

    /// The command that gives the interface the name `new_name`; the handle
    /// goes by the new name from here on. The link must be down for the
    /// command to succeed.
    pub fn rename(&mut self, new_name: &str) -> (c: Command)
        ensures
            c@ == rename_command(old(self).name@, new_name@),
            final(self).name@ == new_name@,
    {
        let mut args: Vec<String> = Vec::new();
        push_text(&mut args, "link");
        push_text(&mut args, "set");
        push_text(&mut args, self.name.as_str());
        push_text(&mut args, "name");
        push_text(&mut args, new_name);
        assert(texts(args@) =~= seq!["link"@, "set"@, self.name@, "name"@, new_name@]);
        self.name = String::from_str(new_name);
        ip_command(args)
    }

    /// The command that brings the interface up.
    pub fn up(&self) -> (c: Command)
        ensures
            c@ == up_command(self.name@),
    {
        let mut args: Vec<String> = Vec::new();
        push_text(&mut args, "link");
        push_text(&mut args, "set");
        push_text(&mut args, self.name.as_str());
        push_text(&mut args, "up");
        assert(texts(args@) =~= seq!["link"@, "set"@, self.name@, "up"@]);
        ip_command(args)
    }

    /// The command that brings the interface down.
    pub fn down(&self) -> (c: Command)
        ensures
            c@ == down_command(self.name@),
    {
        let mut args: Vec<String> = Vec::new();
        push_text(&mut args, "link");
        push_text(&mut args, "set");
        push_text(&mut args, self.name.as_str());
        push_text(&mut args, "down");
        assert(texts(args@) =~= seq!["link"@, "set"@, self.name@, "down"@]);
        ip_command(args)
    }

    /// Whether the listing that `show` printed has the interface up.
    pub fn is_up(output: &str) -> (r: bool)
        ensures
            r == shows_up(output@),
    {
        find_text(output, "UP")
    }

    /// The command that adds `address` with prefix length `mask` to the
    /// interface.
    pub fn add_address(&self, address: &str, mask: u8) -> (c: Command)
        ensures
            c@ == add_address_command(self.name@, address@, mask),
    {
        let mut what = String::from_str(address);
        what.append("/");
        push_decimal(&mut what, mask as u64);
        let mut args: Vec<String> = Vec::new();
        push_text(&mut args, "addr");
        push_text(&mut args, "add");
        push_text(&mut args, what.as_str());
        push_text(&mut args, "dev");
        push_text(&mut args, self.name.as_str());
        assert(texts(args@) =~= seq!["addr"@, "add"@, what@, "dev"@, self.name@]);
        ip_command(args)
    }

    /// The command that removes every address from the interface.
    pub fn flush_addresses(&self) -> (c: Command)
        ensures
            c@ == flush_command(self.name@),
    {
        let mut args: Vec<String> = Vec::new();
        push_text(&mut args, "addr");
        push_text(&mut args, "flush");
        push_text(&mut args, "dev");
        push_text(&mut args, self.name.as_str());
        assert(texts(args@) =~= seq!["addr"@, "flush"@, "dev"@, self.name@]);
        ip_command(args)
    }

    /// The command that lists the routes through the interface.
    pub fn routes(&self) -> (c: Command)
        ensures
            c@ == routes_command(self.name@),
    {
        let mut args: Vec<String> = Vec::new();
        push_text(&mut args, "route");
        push_text(&mut args, "show");
        push_text(&mut args, "dev");
        push_text(&mut args, self.name.as_str());
        assert(texts(args@) =~= seq!["route"@, "show"@, "dev"@, self.name@]);
        ip_command(args)
    }

    /// The default gateway in the listing that `routes` printed.
    pub fn get_gateway(output: &str) -> (r: Option<String>)
        ensures
            match r {
                Some(g) => gateway_of(output@) == Some(g@),
                None => gateway_of(output@).is_none(),
            },
    {
        let t = split_tokens(output);
        let mut i: usize = 0;
        while i < t.len() && t.len() - i > 2
            invariant
                i <= t.len(),
                texts(t@) == tokens(output@),
                gateway_of(output@) == gateway_from(texts(t@), i as nat),
            decreases t.len() - i,
        {
            if same_text(t[i].as_str(), "default") && same_text(t[i + 1].as_str(), "via") {
                return Some(t[i + 2].clone());
            }
            i += 1;
        }
        None
    }

    /// The command that sets the description of the interface.
    pub fn set_description(&self, description: &str) -> (c: Command)
        ensures
            c@ == describe_command(self.name@, description@),
    {
        let mut alias = String::from_str("\"");
        alias.append(description);
        alias.append("\"");
        let mut args: Vec<String> = Vec::new();
        push_text(&mut args, "link");
        push_text(&mut args, "set");
        push_text(&mut args, "dev");
        push_text(&mut args, self.name.as_str());
        push_text(&mut args, "alias");
        push_text(&mut args, alias.as_str());
        assert(texts(args@) =~= seq!["link"@, "set"@, "dev"@, self.name@, "alias"@, alias@]);
        ip_command(args)
    }

    /// The description in the listing that `show` printed.
    pub fn get_description(output: &str) -> (r: Option<String>)
        ensures
            match r {
                Some(d) => description_of(output@) == Some(d@),
                None => description_of(output@).is_none(),
            },
    {
        let t = split_tokens(output);
        match find_token(&t, "alias") {
            Some(k) => {
                if k + 1 < t.len() {
                    Some(unquote(t[k + 1].as_str()))
                } else {
                    None
                }
            },
            None => Some(String::new()),
        }
    }

    /// The hardware address in the listing that `show` printed, as text.
    pub fn get_mac(output: &str) -> (r: Option<String>)
        ensures
            match r {
                Some(m) => hardware_address_of(output@) == Some(m@),
                None => hardware_address_of(output@).is_none(),
            },
    {
        let t = split_tokens(output);
        match find_token(&t, "link/ether") {
            Some(k) => {
                if k + 1 < t.len() {
                    Some(t[k + 1].clone())
                } else {
                    None
                }
            },
            None => None,
        }
    }

    /// The command that deletes the link.
    pub fn delete(&self) -> (c: Command)
        ensures
            c@ == delete_command(self.name@),
    {
        let mut args: Vec<String> = Vec::new();
        push_text(&mut args, "link");
        push_text(&mut args, "delete");
        push_text(&mut args, "dev");
        push_text(&mut args, self.name.as_str());
        assert(texts(args@) =~= seq!["link"@, "delete"@, "dev"@, self.name@]);
        ip_command(args)
    }

    /// The command that makes the interface a member of the bridge `master`.
    pub fn set_master(&self, master: &str) -> (c: Command)
        ensures
            c@ == master_command(self.name@, master@),
    {
        let mut args: Vec<String> = Vec::new();
        push_text(&mut args, "link");
        push_text(&mut args, "set");
        push_text(&mut args, "dev");
        push_text(&mut args, self.name.as_str());
        push_text(&mut args, "master");
        push_text(&mut args, master);
        assert(texts(args@) =~= seq!["link"@, "set"@, "dev"@, self.name@, "master"@, master@]);
        ip_command(args)
    }

    /// The command that releases the interface from its bridge.
    pub fn set_nomaster(&self) -> (c: Command)
        ensures
            c@ == nomaster_command(self.name@),
    {
        let mut args: Vec<String> = Vec::new();
        push_text(&mut args, "link");
        push_text(&mut args, "set");
        push_text(&mut args, "dev");
        push_text(&mut args, self.name.as_str());
        push_text(&mut args, "nomaster");
        assert(texts(args@) =~= seq!["link"@, "set"@, "dev"@, self.name@, "nomaster"@]);
        ip_command(args)
    }
}

/// A link without an alias has the empty description.
///
/// Of every listing that holds no token `alias`: its description is empty,
/// and so it is none of the tags that a configuration sets; in particular
/// it is not `CONFIGURED`.
pub proof fn lemma_no_alias_empty(output: Seq<char>)
    requires
        position(tokens(output), "alias"@).is_none(),
    ensures
        description_of(output) == Some(Seq::<char>::empty()),
        description_of(output) != Some("CONFIGURED"@),
        description_of(output) != Some("CONFIGURING"@),
        description_of(output) != Some("FAILOVER_PROBING"@),
        description_of(output) != Some("FAILOVER_WAITING"@),
{
    reveal_strlit("CONFIGURED");
    reveal_strlit("CONFIGURING");
    reveal_strlit("FAILOVER_PROBING");
    reveal_strlit("FAILOVER_WAITING");
    assert("CONFIGURED"@.len() > 0);
    assert("CONFIGURING"@.len() > 0);
    assert("FAILOVER_PROBING"@.len() > 0);
    assert("FAILOVER_WAITING"@.len() > 0);
}

} // verus!
