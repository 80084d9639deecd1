//! Switching the system's SOCKS proxy: the commands and registry values the
//! window sets, and how it finds the macOS network service in use from the
//! text that `route` and `networksetup` print.
use vstd::prelude::*;

use crate::gui::{contains_text, has_prefix, has_text, starts_with};
use crate::text::{
    chars_of, decimal_text, decimal_u16, lemma_split_on_nonempty, split_chars, split_on,
    string_from_chars, texts_of, trim, trim_chars,
};

verus! {

// ---------------------------------------------------------------------------
// Words and lines.
/// The characters `str::split_ascii_whitespace` splits at.
pub open spec fn ascii_ws() -> Seq<char> {
    seq![' ', '\t', '\n', '\x0C', '\r']
}

/// Keeps the pieces that hold at least one character.
pub open spec fn non_empty() -> spec_fn(Seq<char>) -> bool {
    |w: Seq<char>| w.len() > 0
}

/// The words of `s`: its pieces between ASCII whitespace, empty ones left
/// out (`str::split_ascii_whitespace`).
pub open spec fn words(s: Seq<char>) -> Seq<Seq<char>> {
    split_on(s, ascii_ws()).filter(non_empty())
}

/// The word at index `n` of `s`, when `s` has that many words.
pub open spec fn nth_word(s: Seq<char>, n: int) -> Option<Seq<char>> {
    if 0 <= n < words(s).len() {
        Some(words(s)[n])
    } else {
        None
    }
}

/// The word at index `n` of `s`.
fn word_at(s: &[char], n: usize) -> (r: Option<String>)
    ensures
        match r {
            Some(w) => nth_word(s@, n as int) == Some(w@),
            None => nth_word(s@, n as int) is None,
        },
{
    let seps = [' ', '\t', '\n', '\x0C', '\r'];
    assert(seps@ =~= ascii_ws());
    let pieces = split_chars(s, seps.as_slice());
    let ghost all = texts_of(pieces@);
    let mut k: usize = 0;
    let mut count: usize = 0;
    while k < pieces.len()
        invariant
            all == texts_of(pieces@),
            all == split_on(s@, ascii_ws()),
            k <= pieces@.len(),
            count <= n,
            count == all.take(k as int).filter(non_empty()).len(),
        decreases pieces@.len() - k,
    {
        let ghost t = all.take(k + 1);
        assert(t.drop_last() =~= all.take(k as int));
        assert(all[k as int] == pieces@[k as int]@);
        assert(t.last() == all[k as int]);
        reveal(Seq::filter);
        assert(t.filter(non_empty()) == (if non_empty()(t.last()) {
            t.drop_last().filter(non_empty()).push(t.last())
        } else {
            t.drop_last().filter(non_empty())
        }));
        if pieces[k].len() > 0 {
            if count == n {
                proof {
                    assert(t + all.skip(k + 1) =~= all);
                    Seq::filter_distributes_over_add(t, all.skip(k + 1), non_empty());
                    assert(t.filter(non_empty())[count as int] == all[k as int]);
                    assert(words(s@) == t.filter(non_empty()) + all.skip(k + 1).filter(
                        non_empty(),
                    ));
                    assert(words(s@)[n as int] == all[k as int]);
                }
                return Some(string_from_chars(pieces[k].as_slice()));
            }
            count = count + 1;
        }
        k = k + 1;
    }
    assert(all.take(k as int) =~= all);
    None
}

/// A line as `str::lines` gives it: without the carriage return that ended it.
pub open spec fn strip_cr(l: Seq<char>) -> Seq<char> {
    if l.len() > 0 && l.last() == '\r' {
        l.drop_last()
    } else {
        l
    }
}

/// The lines of `s` (`str::lines`): split at line feeds, a carriage return
/// before a line feed dropped, and no empty last line after a final line
/// feed.
pub open spec fn lines_of(s: Seq<char>) -> Seq<Seq<char>> {
    let p = split_on(s, seq!['\n']);
    let body = p.drop_last().map_values(|l: Seq<char>| strip_cr(l));
    if p.last().len() == 0 {
        body
    } else {
        body.push(p.last())
    }
}

/// The first `k` characters of `s`.
fn prefix_chars(s: &[char], k: usize) -> (r: Vec<char>)
    requires
        k <= s@.len(),
    ensures
        r@ == s@.take(k as int),
{
    let mut r: Vec<char> = Vec::new();
    let mut i: usize = 0;
    while i < k
        invariant
            i <= k <= s@.len(),
            r@ == s@.take(i as int),
        decreases k - i,
    {
        r.push(s[i]);
        i = i + 1;
        assert(s@.take(i as int) =~= s@.take(i - 1).push(s@[i - 1]));
    }
    r
}

/// The lines of `s`.
fn text_lines(s: &[char]) -> (r: Vec<Vec<char>>)
    ensures
        texts_of(r@) == lines_of(s@),
{
    let nl = ['\n'];
    assert(nl@ =~= seq!['\n']);
    let pieces = split_chars(s, nl.as_slice());
    let ghost p = split_on(s@, seq!['\n']);
    proof {
        lemma_split_on_nonempty(s@, seq!['\n']);
    }
    assert(texts_of(pieces@) == p);
    let n = pieces.len();
    let mut out: Vec<Vec<char>> = Vec::new();
    let mut k: usize = 0;
    while k + 1 < n
        invariant
            n == pieces@.len(),
            n >= 1,
            texts_of(pieces@) == p,
            k + 1 <= n,
            texts_of(out@) == p.take(k as int).map_values(|l: Seq<char>| strip_cr(l)),
        decreases n - k,
    {
        let piece = &pieces[k];
        assert(piece@ == p[k as int]);
        let len = piece.len();
        let keep = if len > 0 && piece[len - 1] == '\r' {
            len - 1
        } else {
            len
        };
        let line = prefix_chars(piece.as_slice(), keep);
        let ghost before = texts_of(out@);
        out.push(line);
        proof {
            assert(line@ == strip_cr(p[k as int]));
            assert(texts_of(out@) =~= before.push(line@));
            assert(p.take(k + 1).map_values(|l: Seq<char>| strip_cr(l)) =~= p.take(
                k as int,
            ).map_values(|l: Seq<char>| strip_cr(l)).push(strip_cr(p[k as int])));
        }
        k = k + 1;
    }
    assert(p.take(k as int) =~= p.drop_last());
    let last = &pieces[n - 1];
    assert(last@ == p.last());
    if last.len() > 0 {
        let line = prefix_chars(last.as_slice(), last.len());
        assert(line@ =~= last@);
        let ghost before = texts_of(out@);
        out.push(line);
        assert(texts_of(out@) =~= before.push(line@));
    }
    out
}

// ---------------------------------------------------------------------------
// The macOS network service in use.
/// The tag of the line of `route get default` that names the interface.
pub open spec fn interface_tag() -> Seq<char> {
    seq!['i', 'n', 't', 'e', 'r', 'f', 'a', 'c', 'e', ':']
}

/// The interface assumed when `route` names none.
pub open spec fn fallback_interface() -> Seq<char> {
    seq!['e', 'n', '0']
}

/// The service assumed when `networksetup` lists none for the interface.
pub open spec fn fallback_service() -> Seq<char> {
    seq!['W', 'i', '-', 'F', 'i']
}

/// A line that, trimmed, starts with the interface tag.
pub open spec fn is_interface_line(l: Seq<char>) -> bool {
    starts_with(trim(l), interface_tag())
}

/// The index of the first interface line of `ls` from index `i` on.
pub open spec fn first_interface_line(ls: Seq<Seq<char>>, i: int) -> Option<int>
    decreases ls.len() - i,
{
    if i < 0 || i >= ls.len() {
        None
    } else if is_interface_line(ls[i]) {
        Some(i)
    } else {
        first_interface_line(ls, i + 1)
    }
}

/// The interface of the default route, read from the output of `route get
/// default`: the second word of the first line that starts with
/// `interface:`, or `en0` when there is no such line or word.
pub open spec fn route_interface(out: Seq<char>) -> Seq<char> {
    let ls = lines_of(out);
    match first_interface_line(ls, 0) {
        Some(i) => match nth_word(ls[i], 1) {
            Some(w) => w,
            None => fallback_interface(),
        },
        None => fallback_interface(),
    }
}

/// Reads the interface of the default route from the output of `route get
/// default`.
pub fn default_route_interface(route_output: &str) -> (r: String)
    ensures
        r@ == route_interface(route_output@),
{
    let text = chars_of(route_output);
    let lines = text_lines(text.as_slice());
    let ghost ls = lines_of(route_output@);
    assert(texts_of(lines@) == ls);
    let tag = ['i', 'n', 't', 'e', 'r', 'f', 'a', 'c', 'e', ':'];
    assert(tag@ =~= interface_tag());
    let mut i: usize = 0;
    while i < lines.len()
        invariant
            texts_of(lines@) == ls,
            ls == lines_of(route_output@),
            i <= ls.len(),
            first_interface_line(ls, 0) == first_interface_line(ls, i as int),
            tag@ == interface_tag(),
        decreases ls.len() - i,
    {
        let line = &lines[i];
        assert(line@ == ls[i as int]);
        let trimmed = trim_chars(line.as_slice());
        if has_prefix(trimmed.as_slice(), tag.as_slice()) {
            assert(is_interface_line(ls[i as int]));
            assert(first_interface_line(ls, i as int) == Some(i as int));
            let word = word_at(line.as_slice(), 1);
            assert(route_interface(route_output@) == match nth_word(ls[i as int], 1) {
                Some(w) => w,
                None => fallback_interface(),
            });
            match word {
                Some(w) => {
                    return w;
                },
                None => {
                    let fallback = ['e', 'n', '0'];
                    assert(fallback@ =~= fallback_interface());
                    return string_from_chars(fallback.as_slice());
                },
            }
        }
        i = i + 1;
    }
    let fallback = ['e', 'n', '0'];
    assert(fallback@ =~= fallback_interface());
    string_from_chars(fallback.as_slice())
}

/// The text that marks the interface's entry in `networksetup
/// -listnetworkserviceorder`.
pub open spec fn device_tag(interface: Seq<char>) -> Seq<char> {
    seq!['D', 'e', 'v', 'i', 'c', 'e', ':', ' '] + interface
}

/// Scans the lines `ls` from index `i` on, `prev` being the last line seen
/// that did not mark the interface: at the first line that marks it with such
/// a line before it, the service is the second word of that earlier line,
/// trimmed.
pub open spec fn service_scan(
    ls: Seq<Seq<char>>,
    i: int,
    prev: Option<Seq<char>>,
    tag: Seq<char>,
) -> Seq<char>
    decreases ls.len() - i,
{
    if i < 0 || i >= ls.len() {
        fallback_service()
    } else if contains_text(ls[i], tag) {
        match prev {
            Some(p) => match nth_word(trim(p), 1) {
                Some(w) => w,
                None => fallback_service(),
            },
            None => service_scan(ls, i + 1, prev, tag),
        }
    } else {
        service_scan(ls, i + 1, Some(ls[i]), tag)
    }
}

/// The network service of `interface`, read from the output of `networksetup
/// -listnetworkserviceorder`, or `Wi-Fi` when none is found.
pub open spec fn service_of(listing: Seq<char>, interface: Seq<char>) -> Seq<char> {
    service_scan(lines_of(listing), 0, None, device_tag(interface))
}

/// Reads the network service of `interface` from the output of `networksetup
/// -listnetworkserviceorder`.
pub fn network_service_for(listing: &str, interface: &str) -> (r: String)
    ensures
        r@ == service_of(listing@, interface@),
{
    let text = chars_of(listing);
    let lines = text_lines(text.as_slice());
    let ghost ls = lines_of(listing@);
    assert(texts_of(lines@) == ls);
    let mut tag: Vec<char> = Vec::new();
    tag.push('D');
    tag.push('e');
    tag.push('v');
    tag.push('i');
    tag.push('c');
    tag.push('e');
    tag.push(':');
    tag.push(' ');
    let iface = chars_of(interface);
    let mut j: usize = 0;
    while j < iface.len()
        invariant
            j <= iface@.len(),
            tag@ == seq!['D', 'e', 'v', 'i', 'c', 'e', ':', ' '] + iface@.take(j as int),
        decreases iface@.len() - j,
    {
        tag.push(iface[j]);
        j = j + 1;
        assert(iface@.take(j as int) =~= iface@.take(j - 1).push(iface@[j - 1]));
    }
    assert(iface@.take(j as int) =~= iface@);
    assert(tag@ =~= device_tag(interface@));
    let mut prev: Option<usize> = None;
    let mut i: usize = 0;
    while i < lines.len()
        invariant
            texts_of(lines@) == ls,
            ls == lines_of(listing@),
            i <= ls.len(),
            tag@ == device_tag(interface@),
            match prev {
                Some(k) => k < i,
                None => true,
            },
            service_of(listing@, interface@) == service_scan(
                ls,
                i as int,
                match prev {
                    Some(k) => Some(ls[k as int]),
                    None => None,
                },
                tag@,
            ),
        decreases ls.len() - i,
    {
        let line = &lines[i];
        assert(line@ == ls[i as int]);
        if has_text(line.as_slice(), tag.as_slice()) {
            match prev {
                Some(k) => {
                    let earlier = &lines[k];
                    assert(earlier@ == ls[k as int]);
                    let trimmed = trim_chars(earlier.as_slice());
                    return match word_at(trimmed.as_slice(), 1) {
                        Some(w) => w,
                        None => {
                            let fallback = ['W', 'i', '-', 'F', 'i'];
                            assert(fallback@ =~= fallback_service());
                            string_from_chars(fallback.as_slice())
                        },
                    };
                },
                None => {},
            }
        } else {
            prev = Some(i);
        }
        i = i + 1;
    }
    let fallback = ['W', 'i', '-', 'F', 'i'];
    assert(fallback@ =~= fallback_service());
    string_from_chars(fallback.as_slice())
}

// ---------------------------------------------------------------------------
// The commands and values that switch the proxy.
/// A program the window runs, with its arguments.
pub struct ProxyCommand {
    pub program: String,
    pub args: Vec<String>,
}

/// The texts of a list of strings.
pub open spec fn texts(v: Seq<String>) -> Seq<Seq<char>> {
    v.map_values(|a: String| a@)
}

/// A command as text: its program and its arguments.
pub open spec fn command_text(c: ProxyCommand) -> (Seq<char>, Seq<Seq<char>>) {
    (c.program@, texts(c.args@))
}

/// A list of commands as text.
pub open spec fn commands_text(cs: Seq<ProxyCommand>) -> Seq<(Seq<char>, Seq<Seq<char>>)> {
    cs.map_values(|c: ProxyCommand| command_text(c))
}

/// An owned copy of `s`.
fn owned(s: &str) -> (r: String)
    ensures
        r@ == s@,
{
    s.to_string()
}

/// A command of `program` with the arguments `args`.
fn command(program: &str, args: &[&str]) -> (r: ProxyCommand)
    ensures
        r.program@ == program@,
        texts(r.args@) == args@.map_values(|a: &str| a@),
{
    let mut v: Vec<String> = Vec::new();
    let mut i: usize = 0;
    while i < args.len()
        invariant
            i <= args@.len(),
            texts(v@) == args@.take(i as int).map_values(|a: &str| a@),
        decreases args@.len() - i,
    {
        let ghost before = texts(v@);
        v.push(owned(args[i]));
        i = i + 1;
        assert(texts(v@) =~= before.push(args@[i - 1]@));
        assert(args@.take(i as int).map_values(|a: &str| a@) =~= args@.take(i - 1).map_values(
            |a: &str| a@,
        ).push(args@[i - 1]@));
    }
    assert(args@.take(i as int) =~= args@);
    ProxyCommand { program: owned(program), args: v }
}

/// The GNOME settings that turn the SOCKS proxy on, at `host` and `port`:
/// manual proxy mode, then the SOCKS host, then the SOCKS port.
pub fn gnome_enable_commands(host: &str, port: u16) -> (r: Vec<ProxyCommand>)
    ensures
        commands_text(r@) == seq![
            ("gsettings"@, seq!["set"@, "org.gnome.system.proxy"@, "mode"@, "manual"@]),
            ("gsettings"@, seq!["set"@, "org.gnome.system.proxy.socks"@, "host"@, host@]),
            ("gsettings"@, seq!["set"@, "org.gnome.system.proxy.socks"@, "port"@, decimal_text(port as nat)]),
        ],
{
    let port_text = decimal_u16(port);
    let mode_args = ["set", "org.gnome.system.proxy", "mode", "manual"];
    assert(mode_args@.map_values(|a: &str| a@) =~= seq![
        "set"@,
        "org.gnome.system.proxy"@,
        "mode"@,
        "manual"@,
    ]);
    let mode = command("gsettings", mode_args.as_slice());
    let at_host_args = ["set", "org.gnome.system.proxy.socks", "host", host];
    assert(at_host_args@.map_values(|a: &str| a@) =~= seq![
        "set"@,
        "org.gnome.system.proxy.socks"@,
        "host"@,
        host@,
    ]);
    let at_host = command("gsettings", at_host_args.as_slice());
    let at_port_args = ["set", "org.gnome.system.proxy.socks", "port", port_text.as_str()];
    assert(at_port_args@.map_values(|a: &str| a@) =~= seq![
        "set"@,
        "org.gnome.system.proxy.socks"@,
        "port"@,
        port_text@,
    ]);
    let at_port = command("gsettings", at_port_args.as_slice());
    let mut r: Vec<ProxyCommand> = Vec::new();
    r.push(mode);
    r.push(at_host);
    r.push(at_port);
    assert(commands_text(r@) =~= seq![
        ("gsettings"@, seq!["set"@, "org.gnome.system.proxy"@, "mode"@, "manual"@]),
        ("gsettings"@, seq!["set"@, "org.gnome.system.proxy.socks"@, "host"@, host@]),
        ("gsettings"@, seq!["set"@, "org.gnome.system.proxy.socks"@, "port"@, decimal_text(port as nat)]),
    ]);
    r
}

/// The GNOME setting that turns the proxy off.
pub fn gnome_disable_commands() -> (r: Vec<ProxyCommand>)
    ensures
        commands_text(r@) == seq![
            ("gsettings"@, seq!["set"@, "org.gnome.system.proxy"@, "mode"@, "'none'"@]),
        ],
{
    let off_args = ["set", "org.gnome.system.proxy", "mode", "'none'"];
    assert(off_args@.map_values(|a: &str| a@) =~= seq![
        "set"@,
        "org.gnome.system.proxy"@,
        "mode"@,
        "'none'"@,
    ]);
    let off = command("gsettings", off_args.as_slice());
    let mut r: Vec<ProxyCommand> = Vec::new();
    r.push(off);
    assert(commands_text(r@) =~= seq![
        ("gsettings"@, seq!["set"@, "org.gnome.system.proxy"@, "mode"@, "'none'"@]),
    ]);
    r
}

/// The `networksetup` calls that point the SOCKS proxy of `service` at
/// `host` and `port` and switch it on.
pub fn macos_enable_commands(service: &str, host: &str, port: u16) -> (r: Vec<ProxyCommand>)
    ensures
        commands_text(r@) == seq![
            ("networksetup"@, seq!["-setsocksfirewallproxy"@, service@, host@, decimal_text(port as nat)]),
            ("networksetup"@, seq!["-setsocksfirewallproxystate"@, service@, "on"@]),
        ],
{
    let port_text = decimal_u16(port);
    let set_args = ["-setsocksfirewallproxy", service, host, port_text.as_str()];
    assert(set_args@.map_values(|a: &str| a@) =~= seq![
        "-setsocksfirewallproxy"@,
        service@,
        host@,
        port_text@,
    ]);
    let set = command("networksetup", set_args.as_slice());
    let on_args = ["-setsocksfirewallproxystate", service, "on"];
    assert(on_args@.map_values(|a: &str| a@) =~= seq![
        "-setsocksfirewallproxystate"@,
        service@,
        "on"@,
    ]);
    let on = command("networksetup", on_args.as_slice());
    let mut r: Vec<ProxyCommand> = Vec::new();
    r.push(set);
    r.push(on);
    assert(commands_text(r@) =~= seq![
        ("networksetup"@, seq!["-setsocksfirewallproxy"@, service@, host@, decimal_text(port as nat)]),
        ("networksetup"@, seq!["-setsocksfirewallproxystate"@, service@, "on"@]),
    ]);
    r
}

/// The `networksetup` call that switches the SOCKS proxy of `service` off.
pub fn macos_disable_commands(service: &str) -> (r: Vec<ProxyCommand>)
    ensures
        commands_text(r@) == seq![
            ("networksetup"@, seq!["-setsocksfirewallproxystate"@, service@, "off"@]),
        ],
{
    let off_args = ["-setsocksfirewallproxystate", service, "off"];
    assert(off_args@.map_values(|a: &str| a@) =~= seq![
        "-setsocksfirewallproxystate"@,
        service@,
        "off"@,
    ]);
    let off = command("networksetup", off_args.as_slice());
    let mut r: Vec<ProxyCommand> = Vec::new();
    r.push(off);
    assert(commands_text(r@) =~= seq![
        ("networksetup"@, seq!["-setsocksfirewallproxystate"@, service@, "off"@]),
    ]);
    r
}

/// The value of the Windows `ProxyServer` setting for a SOCKS proxy at
/// `host` and `port`: `socks5=host:port`.
pub fn windows_proxy_server(host: &str, port: u16) -> (r: String)
    ensures
        r@ == seq!['s', 'o', 'c', 'k', 's', '5', '='] + host@ + seq![':'] + decimal_text(port as nat),
{
    let mut cs: Vec<char> = Vec::new();
    cs.push('s');
    cs.push('o');
    cs.push('c');
    cs.push('k');
    cs.push('s');
    cs.push('5');
    cs.push('=');
    let h = chars_of(host);
    let mut i: usize = 0;
    while i < h.len()
        invariant
            i <= h@.len(),
            cs@ == seq!['s', 'o', 'c', 'k', 's', '5', '='] + h@.take(i as int),
        decreases h@.len() - i,
    {
        cs.push(h[i]);
        i = i + 1;
        assert(h@.take(i as int) =~= h@.take(i - 1).push(h@[i - 1]));
    }
    assert(h@.take(i as int) =~= h@);
    cs.push(':');
    let port_text = decimal_u16(port);
    let p = chars_of(port_text.as_str());
    let ghost head = cs@;
    let mut j: usize = 0;
    while j < p.len()
        invariant
            j <= p@.len(),
            cs@ == head + p@.take(j as int),
        decreases p@.len() - j,
    {
        cs.push(p[j]);
        j = j + 1;
        assert(p@.take(j as int) =~= p@.take(j - 1).push(p@[j - 1]));
    }
    assert(p@.take(j as int) =~= p@);
    assert(cs@ =~= seq!['s', 'o', 'c', 'k', 's', '5', '='] + host@ + seq![':'] + decimal_text(
        port as nat,
    ));
    string_from_chars(cs.as_slice())
}

} // verus!
