//! Managed local gateway: which gateway URLs the app manages, how the gateway
//! process is launched, and how its start-up is followed.

use vstd::prelude::*;

use crate::config::AppConfig;
use crate::protocol::string_views;
use crate::text::{
    chars_of, decimal, decimal_chars, push_all, push_str, str_eq, string_from_chars,
};

verus! {

/// Index of the first `"://"` that starts at or after `k`.
pub open spec fn find_scheme_sep(s: Seq<char>, k: int) -> Option<int>
    decreases s.len() - k,
{
    if k < 0 || k + 3 > s.len() {
        None
    } else if s[k] == ':' && s[k + 1] == '/' && s[k + 2] == '/' {
        Some(k)
    } else {
        find_scheme_sep(s, k + 1)
    }
}

/// The second piece of `url.split("://")`: what lies between the first
/// `"://"` and the next one (or the end).
pub open spec fn after_scheme(url: Seq<char>) -> Option<Seq<char>> {
    match find_scheme_sep(url, 0) {
        None => None,
        Some(p) => match find_scheme_sep(url, p + 3) {
            None => Some(url.subrange(p + 3, url.len() as int)),
            Some(q) => Some(url.subrange(p + 3, q)),
        },
    }
}

/// Index of the first `c` in `s` at or after `k`.
pub open spec fn first_index_from(s: Seq<char>, c: char, k: int) -> Option<int>
    decreases s.len() - k,
{
    if k < 0 || k >= s.len() {
        None
    } else if s[k] == c {
        Some(k)
    } else {
        first_index_from(s, c, k + 1)
    }
}

/// Index of the last `c` in `s` before position `k`.
pub open spec fn last_index_before(s: Seq<char>, c: char, k: int) -> Option<int>
    decreases k,
{
    if k <= 0 || k > s.len() {
        None
    } else if s[k - 1] == c {
        Some(k - 1)
    } else {
        last_index_before(s, c, k - 1)
    }
}

/// `s` up to (not including) its first `'/'`.
pub open spec fn before_slash(s: Seq<char>) -> Seq<char> {
    match first_index_from(s, '/', 0) {
        Some(i) => s.take(i),
        None => s,
    }
}

/// `s` without any leading `'['`.
pub open spec fn trim_open_brackets(s: Seq<char>) -> Seq<char>
    decreases s.len(),
{
    if s.len() > 0 && s[0] == '[' {
        trim_open_brackets(s.drop_first())
    } else {
        s
    }
}

/// `s` without any trailing `']'`.
pub open spec fn trim_close_brackets(s: Seq<char>) -> Seq<char>
    decreases s.len(),
{
    if s.len() > 0 && s.last() == ']' {
        trim_close_brackets(s.drop_last())
    } else {
        s
    }
}

pub open spec fn bare_host(s: Seq<char>) -> Seq<char> {
    trim_close_brackets(trim_open_brackets(s))
}

pub open spec fn is_digit(c: char) -> bool {
    '0' <= c && c <= '9'
}

pub open spec fn all_digits(s: Seq<char>) -> bool {
    forall|i: int| 0 <= i < s.len() ==> is_digit(#[trigger] s[i])
}

/// The number written by the decimal digits `s`.
pub open spec fn decimal_value(s: Seq<char>) -> nat
    decreases s.len(),
{
    if s.len() == 0 {
        0
    } else {
        decimal_value(s.drop_last()) * 10 + ((s.last() as nat) - ('0' as nat)) as nat
    }
}

/// (host, port) of a `ws://` or `http://` URL: the authority is what follows
/// `"://"` up to the first `'/'`; a port is taken from a trailing `:digits`
/// that fits in 16 bits, otherwise the port is 80; brackets around an IPv6
/// host are dropped.
pub open spec fn endpoint_spec(url: Seq<char>) -> Option<(Seq<char>, u16)> {
    match after_scheme(url) {
        None => None,
        Some(rest) => {
            let authority = before_slash(rest);
            if authority.len() == 0 {
                None
            } else {
                match last_index_before(authority, ':', authority.len() as int) {
                    Some(idx) if all_digits(authority.subrange(idx + 1, authority.len() as int)) => {
                        let digits = authority.subrange(idx + 1, authority.len() as int);
                        if digits.len() == 0 || decimal_value(digits) > 65535 {
                            None
                        } else {
                            Some((bare_host(authority.take(idx)), decimal_value(digits) as u16))
                        }
                    },
                    _ => Some((bare_host(authority), 80u16)),
                }
            }
        },
    }
}

fn find_scheme_sep_exec(s: &Vec<char>, k: usize) -> (r: Option<usize>)
    ensures
        r matches Some(i) ==> find_scheme_sep(s@, k as int) == Some(i as int) && k <= i && i + 3
            <= s.len(),
        r is None ==> find_scheme_sep(s@, k as int) is None,
{
    let mut i = k;
    while i < s.len() && s.len() - i >= 3
        invariant
            k <= i,
            find_scheme_sep(s@, k as int) == find_scheme_sep(s@, i as int),
        decreases s@.len() - i,
    {
        if s[i] == ':' && s[i + 1] == '/' && s[i + 2] == '/' {
            return Some(i);
        }
        i = i + 1;
    }
    None
}

fn first_index_exec(s: &Vec<char>, c: char) -> (r: Option<usize>)
    ensures
        r matches Some(i) ==> first_index_from(s@, c, 0) == Some(i as int) && i < s@.len(),
        r is None ==> first_index_from(s@, c, 0) is None,
{
    let mut i: usize = 0;
    while i < s.len()
        invariant
            i <= s@.len(),
            first_index_from(s@, c, 0) == first_index_from(s@, c, i as int),
        decreases s@.len() - i,
    {
        if s[i] == c {
            return Some(i);
        }
        i = i + 1;
    }
    None
}

fn last_index_exec(s: &Vec<char>, c: char) -> (r: Option<usize>)
    ensures
        r matches Some(i) ==> last_index_before(s@, c, s@.len() as int) == Some(i as int) && i
            < s@.len(),
        r is None ==> last_index_before(s@, c, s@.len() as int) is None,
{
    let mut k: usize = s.len();
    while k > 0
        invariant
            k <= s@.len(),
            last_index_before(s@, c, s@.len() as int) == last_index_before(s@, c, k as int),
        decreases k,
    {
        if s[k - 1] == c {
            return Some(k - 1);
        }
        k = k - 1;
    }
    None
}

fn bare_host_exec(s: &[char]) -> (r: Vec<char>)
    ensures
        r@ == bare_host(s@),
{
    let mut lo: usize = 0;
    assert(s@.subrange(0, s@.len() as int) =~= s@);
    while lo < s.len() && s[lo] == '['
        invariant
            lo <= s@.len(),
            trim_open_brackets(s@) == trim_open_brackets(s@.subrange(lo as int, s@.len() as int)),
        decreases s@.len() - lo,
    {
        assert(s@.subrange(lo as int, s@.len() as int).drop_first() =~= s@.subrange(
            lo + 1,
            s@.len() as int,
        ));
        lo = lo + 1;
    }
    let ghost opened = s@.subrange(lo as int, s@.len() as int);
    assert(trim_open_brackets(s@) == opened);
    let mut hi: usize = s.len();
    while hi > lo && s[hi - 1] == ']'
        invariant
            lo <= hi <= s@.len(),
            opened == s@.subrange(lo as int, s@.len() as int),
            trim_close_brackets(opened) == trim_close_brackets(s@.subrange(lo as int, hi as int)),
        decreases hi,
    {
        assert(s@.subrange(lo as int, hi as int).drop_last() =~= s@.subrange(lo as int, hi - 1));
        hi = hi - 1;
    }
    let mut r: Vec<char> = Vec::new();
    let mut i = lo;
    while i < hi
        invariant
            lo <= i <= hi,
            hi <= s@.len(),
            r@ == s@.subrange(lo as int, i as int),
        decreases hi - i,
    {
        r.push(s[i]);
        i = i + 1;
        assert(r@ =~= s@.subrange(lo as int, i as int));
    }
    r
}

/// Value of the digits `s[from..]`, or `None` when there are none or the
/// value does not fit in 16 bits.
fn parse_port(s: &Vec<char>, from: usize) -> (r: Option<u16>)
    requires
        from <= s@.len(),
        all_digits(s@.subrange(from as int, s@.len() as int)),
    ensures
        ({
            let d = s@.subrange(from as int, s@.len() as int);
            match r {
                Some(p) => d.len() > 0 && decimal_value(d) <= 65535 && p == decimal_value(d),
                None => d.len() == 0 || decimal_value(d) > 65535,
            }
        }),
{
    if from == s.len() {
        return None;
    }
    let ghost d = s@.subrange(from as int, s@.len() as int);
    let mut v: u32 = 0;
    let mut i = from;
    while i < s.len()
        invariant
            from <= i <= s@.len(),
            d == s@.subrange(from as int, s@.len() as int),
            all_digits(d),
            v as nat == decimal_value(s@.subrange(from as int, i as int)),
            v <= 65535,
        decreases s@.len() - i,
    {
        assert(s@.subrange(from as int, i + 1).drop_last() =~= s@.subrange(from as int, i as int));
        assert(d[i - from] == s@[i as int]);
        assert(is_digit(d[i - from]));
        let digit = (s[i] as u32) - ('0' as u32);
        v = v * 10 + digit;
        i = i + 1;
        if v > 65535 {
            proof {
                lemma_decimal_prefix_bound(d, (i - from) as int);
                assert(d.take(i - from) =~= s@.subrange(from as int, i as int));
            }
            return None;
        }
    }
    assert(s@.subrange(from as int, i as int) =~= d);
    Some(v as u16)
}

/// A longer run of digits never has a smaller value.
proof fn lemma_decimal_prefix_bound(d: Seq<char>, k: int)
    requires
        0 <= k <= d.len(),
        all_digits(d),
    ensures
        decimal_value(d.take(k)) <= decimal_value(d),
    decreases d.len() - k,
{
    if k < d.len() {
        lemma_decimal_prefix_bound(d, k + 1);
        assert(d.take(k + 1).drop_last() =~= d.take(k));
        assert(is_digit(d[k]));
    } else {
        assert(d.take(k) =~= d);
    }
}

/// Extract (host, port) from a ws:// or http:// URL.
pub fn endpoint(url: &str) -> (r: Option<(String, u16)>)
    ensures
        match r {
            Some((host, port)) => endpoint_spec(url@) == Some((host@, port)),
            None => endpoint_spec(url@) is None,
        },
{
    let u = chars_of(url);
    let p = match find_scheme_sep_exec(&u, 0) {
        Some(p) => p,
        None => return None,
    };
    let end = match find_scheme_sep_exec(&u, p + 3) {
        Some(q) => q,
        None => u.len(),
    };
    let mut rest: Vec<char> = Vec::new();
    let mut i = p + 3;
    while i < end
        invariant
            p + 3 <= i <= end <= u@.len(),
            rest@ == u@.subrange(p + 3, i as int),
        decreases end - i,
    {
        rest.push(u[i]);
        i = i + 1;
        assert(rest@ =~= u@.subrange(p + 3, i as int));
    }
    let alen = match first_index_exec(&rest, '/') {
        Some(j) => j,
        None => rest.len(),
    };
    let mut authority: Vec<char> = Vec::new();
    let mut i: usize = 0;
    while i < alen
        invariant
            i <= alen <= rest@.len(),
            authority@ == rest@.take(i as int),
        decreases alen - i,
    {
        authority.push(rest[i]);
        i = i + 1;
        assert(authority@ =~= rest@.take(i as int));
    }
    assert(authority@ == before_slash(rest@)) by {
        if alen == rest@.len() {
            assert(rest@.take(alen as int) =~= rest@);
        }
    }
    if authority.len() == 0 {
        return None;
    }
    let ghost a = authority@;
    match last_index_exec(&authority, ':') {
        Some(idx) => {
            let mut all = true;
            let mut j = idx + 1;
            while j < authority.len() && all
                invariant
                    idx < authority@.len(),
                    idx + 1 <= j <= authority@.len(),
                    all == all_digits(authority@.subrange(idx + 1, j as int)),
                decreases authority@.len() - j,
            {
                let c = authority[j];
                assert(authority@.subrange(idx + 1, j + 1) =~= authority@.subrange(idx + 1, j as int).push(c));
                assert(authority@.subrange(idx + 1, j + 1)[j - idx - 1] == c);
                if !('0' <= c && c <= '9') {
                    all = false;
                    assert(!all_digits(authority@.subrange(idx + 1, j + 1)));
                }
                j = j + 1;
            }
            if !all {
                assert(!all_digits(authority@.subrange(idx + 1, authority@.len() as int))) by {
                    let t = authority@.subrange(idx + 1, authority@.len() as int);
                    let u = authority@.subrange(idx + 1, j as int);
                    let k = choose|k: int| 0 <= k < u.len() && !is_digit(#[trigger] u[k]);
                    assert(t[k] == u[k]);
                }
            }
            if all {
                assert(j == authority@.len());
                match parse_port(&authority, idx + 1) {
                    Some(port) => {
                        let mut head: Vec<char> = Vec::new();
                        let mut m: usize = 0;
                        while m < idx
                            invariant
                                m <= idx < authority@.len(),
                                head@ == authority@.take(m as int),
                            decreases idx - m,
                        {
                            head.push(authority[m]);
                            m = m + 1;
                            assert(head@ =~= authority@.take(m as int));
                        }
                        let host = bare_host_exec(head.as_slice());
                        Some((string_from_chars(host.as_slice()), port))
                    },
                    None => None,
                }
            } else {
                let host = bare_host_exec(authority.as_slice());
                Some((string_from_chars(host.as_slice()), 80))
            }
        },
        None => {
            let host = bare_host_exec(authority.as_slice());
            Some((string_from_chars(host.as_slice()), 80))
        },
    }
}

/// Only loopback gateways are started and stopped with the app.
pub fn is_loopback(host: &str) -> (r: bool)
    ensures
        r == (host@ == "127.0.0.1"@ || host@ == "localhost"@ || host@ == "::1"@),
{
    str_eq(host, "127.0.0.1") || str_eq(host, "localhost") || str_eq(host, "::1")
}

/// How the gateway is launched.
pub enum Launch {
    /// Self-contained gateway executable (PyInstaller sidecar).
    Binary(String),
    /// `python -m uvicorn app.main:app` inside a gateway source checkout.
    Uvicorn { python: String, gateway_dir: String },
}

pub open spec fn describe_spec(l: Launch) -> Seq<char> {
    match l {
        Launch::Binary(p) => "bundled gateway "@ + p@,
        Launch::Uvicorn { python, gateway_dir } => python@ + " -m uvicorn in "@ + gateway_dir@,
    }
}

impl Launch {
    /// Human-readable description for the event log.
    pub fn describe(&self) -> (d: String)
        ensures
            d@ == describe_spec(*self),
    {
        let mut out: Vec<char> = Vec::new();
        match self {
            Launch::Binary(p) => {
                push_str(&mut out, "bundled gateway ");
                push_str(&mut out, p.as_str());
            },
            Launch::Uvicorn { python, gateway_dir } => {
                push_str(&mut out, python.as_str());
                push_str(&mut out, " -m uvicorn in ");
                push_str(&mut out, gateway_dir.as_str());
            },
        }
        assert(out@ =~= describe_spec(*self));
        string_from_chars(out.as_slice())
    }
}

/// `s` with every single quote doubled.
pub open spec fn double_quotes(s: Seq<char>) -> Seq<char>
    decreases s.len(),
{
    if s.len() == 0 {
        seq![]
    } else if s.last() == '\'' {
        double_quotes(s.drop_last()) + seq!['\'', '\'']
    } else {
        double_quotes(s.drop_last()).push(s.last())
    }
}

/// `s` as a PowerShell single-quoted literal.
pub open spec fn ps_literal(s: Seq<char>) -> Seq<char> {
    seq!['\''] + double_quotes(s) + seq!['\'']
}

pub fn powershell_literal(value: &str) -> (r: String)
    ensures
        r@ == ps_literal(value@),
{
    let v = chars_of(value);
    let mut out: Vec<char> = Vec::new();
    out.push('\'');
    let mut i: usize = 0;
    while i < v.len()
        invariant
            i <= v@.len(),
            out@ == seq!['\''] + double_quotes(v@.take(i as int)),
        decreases v@.len() - i,
    {
        assert(v@.take(i + 1).drop_last() =~= v@.take(i as int));
        if v[i] == '\'' {
            out.push('\'');
            out.push('\'');
        } else {
            out.push(v[i]);
        }
        i = i + 1;
        assert(out@ =~= seq!['\''] + double_quotes(v@.take(i as int)));
    }
    assert(v@.take(v@.len() as int) =~= v@);
    out.push('\'');
    assert(out@ =~= ps_literal(value@));
    string_from_chars(out.as_slice())
}

/// Working directory of the gateway process.
pub enum WorkDir {
    /// The app's own.
    Inherit,
    /// This directory.
    Dir(String),
    /// The directory holding this file.
    ParentOf(String),
}

/// Program, arguments and working directory of the gateway process.
pub struct GatewayCommand {
    pub program: String,
    pub args: Vec<String>,
    pub workdir: WorkDir,
}

/// The PowerShell wrapper used on Windows, running `script`.
pub open spec fn powershell_args(script: Seq<char>) -> Seq<Seq<char>> {
    seq![
        "-NoLogo"@,
        "-NoProfile"@,
        "-NonInteractive"@,
        "-ExecutionPolicy"@,
        "Bypass"@,
        "-Command"@,
        script,
    ]
}

/// The gateway listens on `host:port`. On Unix the launch target is run
/// directly; on Windows it is run through PowerShell with every value
/// quoted as a literal.
pub open spec fn command_ok(
    launch: Launch,
    host: Seq<char>,
    port: u16,
    windows: bool,
    c: GatewayCommand,
) -> bool {
    let port_s = decimal(port as nat);
    match launch {
        Launch::Binary(path) => if windows {
            &&& c.program@ == "powershell.exe"@
            &&& string_views(c.args@) == powershell_args(
                "& "@ + ps_literal(path@) + " --host "@ + ps_literal(host) + " --port "@
                    + ps_literal(port_s),
            )
            &&& c.workdir matches WorkDir::ParentOf(p) && p@ == path@
        } else {
            &&& c.program@ == path@
            &&& string_views(c.args@) == seq!["--host"@, host, "--port"@, port_s]
            &&& c.workdir is Inherit
        },
        Launch::Uvicorn { python, gateway_dir } => if windows {
            &&& c.program@ == "powershell.exe"@
            &&& string_views(c.args@) == powershell_args(
                "& "@ + ps_literal(python@) + " -m uvicorn app.main:app --host "@ + ps_literal(host)
                    + " --port "@ + ps_literal(port_s) + " --log-level info"@,
            )
            &&& c.workdir matches WorkDir::Dir(d) && d@ == gateway_dir@
        } else {
            &&& c.program@ == python@
            &&& string_views(c.args@) == seq![
                "-m"@,
                "uvicorn"@,
                "app.main:app"@,
                "--host"@,
                host,
                "--port"@,
                port_s,
                "--log-level"@,
                "info"@,
            ]
            &&& c.workdir matches WorkDir::Dir(d) && d@ == gateway_dir@
        },
    }
}

fn push_arg(args: &mut Vec<String>, a: String)
    ensures
        string_views(final(args)@) == string_views(old(args)@).push(a@),
{
    args.push(a);
    assert(string_views(final(args)@) =~= string_views(old(args)@).push(a@));
}

fn powershell_command(script: String) -> (args: Vec<String>)
    ensures
        string_views(args@) == powershell_args(script@),
{
    let mut args: Vec<String> = Vec::new();
    push_arg(&mut args, "-NoLogo".to_owned());
    push_arg(&mut args, "-NoProfile".to_owned());
    push_arg(&mut args, "-NonInteractive".to_owned());
    push_arg(&mut args, "-ExecutionPolicy".to_owned());
    push_arg(&mut args, "Bypass".to_owned());
    push_arg(&mut args, "-Command".to_owned());
    push_arg(&mut args, script);
    assert(string_views(args@) =~= powershell_args(script@));
    args
}

/// The command that starts the gateway from `launch` on `host:port`.
pub fn gateway_command(launch: &Launch, host: &str, port: u16, windows: bool) -> (c: GatewayCommand)
    ensures
        command_ok(*launch, host@, port, windows, c),
{
    let port_chars = decimal_chars(port as u64);
    let port_s = string_from_chars(port_chars.as_slice());
    match launch {
        Launch::Binary(path) => {
            if windows {
                let mut script: Vec<char> = Vec::new();
                push_str(&mut script, "& ");
                push_str(&mut script, powershell_literal(path.as_str()).as_str());
                push_str(&mut script, " --host ");
                push_str(&mut script, powershell_literal(host).as_str());
                push_str(&mut script, " --port ");
                push_str(&mut script, powershell_literal(port_s.as_str()).as_str());
                assert(script@ =~= "& "@ + ps_literal(path@) + " --host "@ + ps_literal(host@)
                    + " --port "@ + ps_literal(decimal(port as nat)));
                let args = powershell_command(string_from_chars(script.as_slice()));
                GatewayCommand {
                    program: "powershell.exe".to_owned(),
                    args,
                    workdir: WorkDir::ParentOf(path.clone()),
                }
            } else {
                let mut args: Vec<String> = Vec::new();
                push_arg(&mut args, "--host".to_owned());
                push_arg(&mut args, host.to_owned());
                push_arg(&mut args, "--port".to_owned());
                push_arg(&mut args, port_s);
                assert(string_views(args@) =~= seq!["--host"@, host@, "--port"@, decimal(port as nat)]);
                GatewayCommand { program: path.clone(), args, workdir: WorkDir::Inherit }
            }
        },
        Launch::Uvicorn { python, gateway_dir } => {
            if windows {
                let mut script: Vec<char> = Vec::new();
                push_str(&mut script, "& ");
                push_str(&mut script, powershell_literal(python.as_str()).as_str());
                push_str(&mut script, " -m uvicorn app.main:app --host ");
                push_str(&mut script, powershell_literal(host).as_str());
                push_str(&mut script, " --port ");
                push_str(&mut script, powershell_literal(port_s.as_str()).as_str());
                push_str(&mut script, " --log-level info");
                assert(script@ =~= "& "@ + ps_literal(python@) + " -m uvicorn app.main:app --host "@
                    + ps_literal(host@) + " --port "@ + ps_literal(decimal(port as nat))
                    + " --log-level info"@);
                let args = powershell_command(string_from_chars(script.as_slice()));
                GatewayCommand {
                    program: "powershell.exe".to_owned(),
                    args,
                    workdir: WorkDir::Dir(gateway_dir.clone()),
                }
            } else {
                let mut args: Vec<String> = Vec::new();
                push_arg(&mut args, "-m".to_owned());
                push_arg(&mut args, "uvicorn".to_owned());
                push_arg(&mut args, "app.main:app".to_owned());
                push_arg(&mut args, "--host".to_owned());
                push_arg(&mut args, host.to_owned());
                push_arg(&mut args, "--port".to_owned());
                push_arg(&mut args, port_s);
                push_arg(&mut args, "--log-level".to_owned());
                push_arg(&mut args, "info".to_owned());
                assert(string_views(args@) =~= seq![
                    "-m"@,
                    "uvicorn"@,
                    "app.main:app"@,
                    "--host"@,
                    host@,
                    "--port"@,
                    decimal(port as nat),
                    "--log-level"@,
                    "info"@,
                ]);
                GatewayCommand {
                    program: python.clone(),
                    args,
                    workdir: WorkDir::Dir(gateway_dir.clone()),
                }
            }
        },
    }
}

pub open spec fn env_views(v: Seq<(String, String)>) -> Seq<(Seq<char>, Seq<char>)> {
    v.map_values(|kv: (String, String)| (kv.0@, kv.1@))
}

/// The environment the managed gateway is started with: Xet downloads off,
/// then the configured provider (unless "auto") and each non-empty Whisper
/// setting.
pub open spec fn gateway_env_spec(cfg: AppConfig) -> Seq<(Seq<char>, Seq<char>)> {
    let base = seq![("HF_HUB_DISABLE_XET"@, "1"@)];
    let p = if cfg.stt_provider@.len() > 0 && cfg.stt_provider@ != "auto"@ {
        base.push(("WHISPR_STT_PROVIDER"@, cfg.stt_provider@))
    } else {
        base
    };
    let m = if cfg.whisper_model@.len() > 0 {
        p.push(("WHISPR_WHISPER_MODEL"@, cfg.whisper_model@))
    } else {
        p
    };
    let d = if cfg.whisper_device@.len() > 0 {
        m.push(("WHISPR_WHISPER_DEVICE"@, cfg.whisper_device@))
    } else {
        m
    };
    if cfg.whisper_compute@.len() > 0 {
        d.push(("WHISPR_WHISPER_COMPUTE"@, cfg.whisper_compute@))
    } else {
        d
    }
}

fn push_env(env: &mut Vec<(String, String)>, k: &str, v: &str)
    ensures
        env_views(final(env)@) == env_views(old(env)@).push((k@, v@)),
{
    env.push((k.to_owned(), v.to_owned()));
    assert(env_views(final(env)@) =~= env_views(old(env)@).push((k@, v@)));
}

pub fn gateway_env(cfg: &AppConfig) -> (env: Vec<(String, String)>)
    ensures
        env_views(env@) == gateway_env_spec(*cfg),
{
    let mut env: Vec<(String, String)> = Vec::new();
    push_env(&mut env, "HF_HUB_DISABLE_XET", "1");
    assert(env_views(env@) =~= seq![("HF_HUB_DISABLE_XET"@, "1"@)]);
    if !cfg.stt_provider.as_str().is_empty() && !str_eq(cfg.stt_provider.as_str(), "auto") {
        push_env(&mut env, "WHISPR_STT_PROVIDER", cfg.stt_provider.as_str());
    }
    if !cfg.whisper_model.as_str().is_empty() {
        push_env(&mut env, "WHISPR_WHISPER_MODEL", cfg.whisper_model.as_str());
    }
    if !cfg.whisper_device.as_str().is_empty() {
        push_env(&mut env, "WHISPR_WHISPER_DEVICE", cfg.whisper_device.as_str());
    }
    if !cfg.whisper_compute.as_str().is_empty() {
        push_env(&mut env, "WHISPR_WHISPER_COMPUTE", cfg.whisper_compute.as_str());
    }
    env
}

/// Whether the app manages the gateway of a configuration, and where.
#[derive(Debug, PartialEq, Eq)]
pub enum GatewayPlan {
    /// Gateway management is switched off.
    Off,
    /// The gateway URL does not parse.
    BadUrl,
    /// The gateway is not on this machine; it is left alone.
    NotLoopback(String),
    /// Manage the gateway at this loopback address.
    Manage { host: String, port: u16 },
}

pub open spec fn is_loopback_spec(h: Seq<char>) -> bool {
    h == "127.0.0.1"@ || h == "localhost"@ || h == "::1"@
}

pub open spec fn plan_ok(cfg: AppConfig, plan: GatewayPlan) -> bool {
    if !cfg.manage_gateway {
        plan is Off
    } else {
        match endpoint_spec(cfg.gateway_url@) {
            None => plan is BadUrl,
            Some((h, p)) => if is_loopback_spec(h) {
                plan matches GatewayPlan::Manage { host, port } && host@ == h && port == p
            } else {
                plan matches GatewayPlan::NotLoopback(host) && host@ == h
            },
        }
    }
}

/// Only loopback gateways, and only when management is on.
pub fn gateway_plan(cfg: &AppConfig) -> (plan: GatewayPlan)
    ensures
        plan_ok(*cfg, plan),
{
    if !cfg.manage_gateway {
        return GatewayPlan::Off;
    }
    match endpoint(cfg.gateway_url.as_str()) {
        None => GatewayPlan::BadUrl,
        Some((host, port)) => {
            if is_loopback(host.as_str()) {
                GatewayPlan::Manage { host, port }
            } else {
                GatewayPlan::NotLoopback(host)
            }
        },
    }
}

/// The app manages a gateway only when management is on and the gateway URL
/// points at this machine.
pub proof fn law_only_loopback_managed(cfg: AppConfig, plan: GatewayPlan)
    requires
        plan_ok(cfg, plan),
    ensures
        plan matches GatewayPlan::Manage { host, port } ==> cfg.manage_gateway && is_loopback_spec(
            host@,
        ) && endpoint_spec(cfg.gateway_url@) == Some((host@, port)),
        !cfg.manage_gateway ==> plan is Off,
{
}

/// `host:port`, with brackets around a host that holds a colon (IPv6).
pub open spec fn socket_addr_spec(host: Seq<char>, port: u16) -> Seq<char> {
    if host.contains(':') {
        seq!['['] + host + seq![']', ':'] + decimal(port as nat)
    } else {
        host + seq![':'] + decimal(port as nat)
    }
}

pub open spec fn healthz_request_spec(addr: Seq<char>) -> Seq<char> {
    "GET /healthz HTTP/1.1\r\nHost: "@ + addr + "\r\nConnection: close\r\n\r\n"@
}

/// Address to probe and the `GET /healthz` request to send there.
pub fn healthz_request(host: &str, port: u16) -> (r: (String, String))
    ensures
        r.0@ == socket_addr_spec(host@, port),
        r.1@ == healthz_request_spec(socket_addr_spec(host@, port)),
{
    let h = chars_of(host);
    let mut has_colon = false;
    let mut i: usize = 0;
    while i < h.len()
        invariant
            i <= h@.len(),
            has_colon == (exists|k: int| 0 <= k < i && h@[k] == ':'),
        decreases h@.len() - i,
    {
        if h[i] == ':' {
            has_colon = true;
        }
        i = i + 1;
    }
    let digits = decimal_chars(port as u64);
    let mut addr: Vec<char> = Vec::new();
    if has_colon {
        addr.push('[');
        push_all(&mut addr, h.as_slice());
        addr.push(']');
        addr.push(':');
        push_all(&mut addr, digits.as_slice());
    } else {
        push_all(&mut addr, h.as_slice());
        addr.push(':');
        push_all(&mut addr, digits.as_slice());
    }
    assert(addr@ =~= socket_addr_spec(host@, port));
    let mut req: Vec<char> = Vec::new();
    push_str(&mut req, "GET /healthz HTTP/1.1\r\nHost: ");
    push_all(&mut req, addr.as_slice());
    push_str(&mut req, "\r\nConnection: close\r\n\r\n");
    assert(req@ =~= healthz_request_spec(addr@));
    (string_from_chars(addr.as_slice()), string_from_chars(req.as_slice()))
}

pub open spec fn starts_with_bytes(s: Seq<u8>, p: Seq<u8>) -> bool {
    p.len() <= s.len() && s.take(p.len() as int) == p
}

/// "HTTP/1.1 200"
pub open spec fn ok_status_11() -> Seq<u8> {
    seq![72u8, 84u8, 84u8, 80u8, 47u8, 49u8, 46u8, 49u8, 32u8, 50u8, 48u8, 48u8]
}

/// "HTTP/1.0 200"
pub open spec fn ok_status_10() -> Seq<u8> {
    seq![72u8, 84u8, 84u8, 80u8, 47u8, 49u8, 46u8, 48u8, 32u8, 50u8, 48u8, 48u8]
}

fn has_prefix(s: &[u8], p: &[u8]) -> (r: bool)
    ensures
        r == starts_with_bytes(s@, p@),
{
    if p.len() > s.len() {
        return false;
    }
    let mut i: usize = 0;
    while i < p.len()
        invariant
            p@.len() <= s@.len(),
            i <= p@.len(),
            forall|k: int| 0 <= k < i ==> s@[k] == p@[k],
        decreases p@.len() - i,
    {
        if s[i] != p[i] {
            assert(s@.take(p@.len() as int)[i as int] != p@[i as int]);
            return false;
        }
        i = i + 1;
    }
    assert(s@.take(p@.len() as int) =~= p@);
    true
}

/// The gateway answers healthy: the response starts with an HTTP/1.x 200
/// status line.
pub fn healthz_ok(response: &[u8]) -> (r: bool)
    ensures
        r == (starts_with_bytes(response@, ok_status_11()) || starts_with_bytes(
            response@,
            ok_status_10(),
        )),
{
    let v11: [u8; 12] = [72, 84, 84, 80, 47, 49, 46, 49, 32, 50, 48, 48];
    let v10: [u8; 12] = [72, 84, 84, 80, 47, 49, 46, 48, 32, 50, 48, 48];
    assert(v11@ =~= ok_status_11());
    assert(v10@ =~= ok_status_10());
    has_prefix(response, v11.as_slice()) || has_prefix(response, v10.as_slice())
}

/// The gateway process this app started, as last seen.
#[derive(Debug, Clone, Copy, PartialEq, Eq, Structural)]
pub enum OwnedGateway {
    /// None was started, or it has been stopped.
    NoProcess,
    /// It is still running.
    Running,
    /// It has exited, or its state cannot be read.
    Ended,
}

/// What making sure of the gateway does first.
#[derive(Debug, Clone, Copy, PartialEq, Eq, Structural)]
pub enum EnsureStart {
    /// The gateway this app started still runs: nothing to do.
    KeepOwned,
    /// Probe the port for a gateway, first forgetting the process this app
    /// started when `forget_ended` (it has ended).
    ProbePort { forget_ended: bool },
}

/// A gateway this app started and that still runs is kept as it is;
/// otherwise an ended one is forgotten and the port is probed.
pub fn ensure_start(owned: OwnedGateway) -> (r: EnsureStart)
    ensures
        owned == OwnedGateway::Running ==> r == EnsureStart::KeepOwned,
        owned == OwnedGateway::Ended ==> r == (EnsureStart::ProbePort { forget_ended: true }),
        owned == OwnedGateway::NoProcess ==> r == (EnsureStart::ProbePort { forget_ended: false }),
{
    match owned {
        OwnedGateway::Running => EnsureStart::KeepOwned,
        OwnedGateway::Ended => EnsureStart::ProbePort { forget_ended: true },
        OwnedGateway::NoProcess => EnsureStart::ProbePort { forget_ended: false },
    }
}

/// What the answer of the port probe means.
#[derive(Debug, Clone, Copy, PartialEq, Eq, Structural)]
pub enum PortProbe {
    /// Something already answers `/healthz`: an externally started gateway.
    /// It is used as it is; nothing is launched, so this app never owns it
    /// and never stops it.
    UseExternal,
    /// Nothing answers: find a launch and start a gateway of our own.
    LaunchOwn,
}

/// A gateway that already answers on the port is used as it is and never
/// started or taken over; only when nothing answers is one launched.
pub fn after_port_probe(healthy: bool) -> (r: PortProbe)
    ensures
        healthy <==> r == PortProbe::UseExternal,
        !healthy <==> r == PortProbe::LaunchOwn,
{
    if healthy {
        PortProbe::UseExternal
    } else {
        PortProbe::LaunchOwn
    }
}

/// Seconds the app waits for `/healthz` after spawning the gateway. The first
/// run of a large Whisper model downloads several GB, so this is generous.
pub const READY_TIMEOUT_S: u64 = 600;

/// After this many seconds the log says the gateway is still starting.
pub const STILL_STARTING_S: u64 = 20;

/// The spawned gateway process as seen after a one-second wait.
pub enum ChildStatus {
    /// The managed process was shut down meanwhile.
    Gone,
    /// It exited; holds the exit status text.
    Exited(String),
    /// Still running.
    Running,
}

#[derive(Debug, PartialEq, Eq)]
pub enum WaitStep {
    /// Stop waiting silently.
    Abandon,
    /// Report that the gateway exited during start-up, then stop.
    Exited(String),
    /// Probe `/healthz`.
    Probe,
}

#[derive(Debug, Clone, Copy, PartialEq, Eq, Structural)]
pub enum ProbeOutcome {
    /// Report the gateway ready, then stop.
    Ready,
    /// Report that start-up takes a while (first model download), go on.
    StillStarting,
    /// Go on.
    KeepWaiting,
    /// Report the timeout, then stop.
    TimedOut,
}

/// Waiting for the managed gateway to answer `/healthz`, one second at a time.
pub struct ReadyWait {
    elapsed: u64,
}

impl ReadyWait {
    pub closed spec fn elapsed_of(&self) -> u64 {
        self.elapsed
    }

    pub fn new() -> (r: Self)
        ensures
            r.elapsed_of() == 0,
    {
        ReadyWait { elapsed: 0 }
    }

    /// Seconds waited so far.
    pub fn elapsed(&self) -> (s: u64)
        ensures
            s == self.elapsed_of(),
    {
        self.elapsed
    }

    /// Another second has passed; `status` is the process after it.
    pub fn tick(&mut self, status: ChildStatus) -> (step: WaitStep)
        requires
            old(self).elapsed_of() < READY_TIMEOUT_S,
        ensures
            final(self).elapsed_of() == old(self).elapsed_of() + 1,
            match status {
                ChildStatus::Gone => step == WaitStep::Abandon,
                ChildStatus::Exited(s) => step == WaitStep::Exited(s),
                ChildStatus::Running => step == WaitStep::Probe,
            },
    {
        self.elapsed = self.elapsed + 1;
        match status {
            ChildStatus::Gone => WaitStep::Abandon,
            ChildStatus::Exited(s) => WaitStep::Exited(s),
            ChildStatus::Running => WaitStep::Probe,
        }
    }

    /// What a probe's answer means at this point of the wait.
    pub fn after_probe(&self, healthy: bool) -> (o: ProbeOutcome)
        ensures
            healthy ==> o == ProbeOutcome::Ready,
            !healthy && self.elapsed_of() >= READY_TIMEOUT_S ==> o == ProbeOutcome::TimedOut,
            !healthy && self.elapsed_of() < READY_TIMEOUT_S && self.elapsed_of() == STILL_STARTING_S
                ==> o == ProbeOutcome::StillStarting,
            !healthy && self.elapsed_of() < READY_TIMEOUT_S && self.elapsed_of() != STILL_STARTING_S
                ==> o == ProbeOutcome::KeepWaiting,
    {
        if healthy {
            ProbeOutcome::Ready
        } else if self.elapsed >= READY_TIMEOUT_S {
            ProbeOutcome::TimedOut
        } else if self.elapsed == STILL_STARTING_S {
            ProbeOutcome::StillStarting
        } else {
            ProbeOutcome::KeepWaiting
        }
    }
}

/// File name of the bundled gateway executable.
pub open spec fn gateway_exe_spec(windows: bool) -> Seq<char> {
    if windows {
        "whispr-gateway.exe"@
    } else {
        "whispr-gateway"@
    }
}

/// Where a bundled gateway may sit under a root directory, as path
/// components: next to it, in a PyInstaller onedir folder, in `gateway/`,
/// and in `gateway/whispr-gateway/` (bundled resources).
pub open spec fn binary_candidates_spec(windows: bool) -> Seq<Seq<Seq<char>>> {
    let exe = gateway_exe_spec(windows);
    seq![
        seq![exe],
        seq!["whispr-gateway"@, exe],
        seq!["gateway"@, exe],
        seq!["gateway"@, "whispr-gateway"@, exe],
    ]
}

pub open spec fn parts_views(v: Seq<Vec<String>>) -> Seq<Seq<Seq<char>>> {
    v.map_values(|p: Vec<String>| string_views(p@))
}

/// The places, relative to a root directory, where a bundled gateway
/// executable is looked for, in order.
pub fn gateway_binary_candidates(windows: bool) -> (c: Vec<Vec<String>>)
    ensures
        parts_views(c@) == binary_candidates_spec(windows),
{
    let exe: &str = if windows {
        "whispr-gateway.exe"
    } else {
        "whispr-gateway"
    };
    let mut next_to: Vec<String> = Vec::new();
    push_arg(&mut next_to, exe.to_owned());
    let mut onedir: Vec<String> = Vec::new();
    push_arg(&mut onedir, "whispr-gateway".to_owned());
    push_arg(&mut onedir, exe.to_owned());
    let mut in_gateway: Vec<String> = Vec::new();
    push_arg(&mut in_gateway, "gateway".to_owned());
    push_arg(&mut in_gateway, exe.to_owned());
    let mut resources: Vec<String> = Vec::new();
    push_arg(&mut resources, "gateway".to_owned());
    push_arg(&mut resources, "whispr-gateway".to_owned());
    push_arg(&mut resources, exe.to_owned());
    let ghost e = gateway_exe_spec(windows);
    assert(exe@ == e);
    assert(string_views(next_to@) =~= seq![e]);
    assert(string_views(onedir@) =~= seq!["whispr-gateway"@, e]);
    assert(string_views(in_gateway@) =~= seq!["gateway"@, e]);
    assert(string_views(resources@) =~= seq!["gateway"@, "whispr-gateway"@, e]);
    let mut c: Vec<Vec<String>> = Vec::new();
    c.push(next_to);
    c.push(onedir);
    c.push(in_gateway);
    c.push(resources);
    assert(parts_views(c@) =~= binary_candidates_spec(windows));
    c
}

/// The interpreter inside a gateway checkout's own virtualenv, as path
/// components under the gateway directory.
pub open spec fn venv_python_spec(windows: bool) -> Seq<Seq<char>> {
    if windows {
        seq![".venv"@, "Scripts"@, "python.exe"@]
    } else {
        seq![".venv"@, "bin"@, "python"@]
    }
}

pub fn venv_python(windows: bool) -> (p: Vec<String>)
    ensures
        string_views(p@) == venv_python_spec(windows),
{
    let mut p: Vec<String> = Vec::new();
    push_arg(&mut p, ".venv".to_owned());
    if windows {
        push_arg(&mut p, "Scripts".to_owned());
        push_arg(&mut p, "python.exe".to_owned());
    } else {
        push_arg(&mut p, "bin".to_owned());
        push_arg(&mut p, "python".to_owned());
    }
    assert(string_views(p@) =~= venv_python_spec(windows));
    p
}

/// The interpreter that runs a gateway source checkout.
pub enum PythonPick {
    /// The checkout's own virtualenv interpreter: these path components under
    /// the gateway directory.
    Venv(Vec<String>),
    /// An interpreter looked up on PATH by this name.
    OnPath(String),
}

/// Prefer the gateway's own venv; fall back to a PATH interpreter (spawn
/// errors surface in the event log).
pub fn python_for(venv_is_file: bool, windows: bool) -> (p: PythonPick)
    ensures
        match p {
            PythonPick::Venv(parts) => venv_is_file && string_views(parts@) == venv_python_spec(
                windows,
            ),
            PythonPick::OnPath(name) => !venv_is_file && name@ == (if windows {
                "python"@
            } else {
                "python3"@
            }),
        },
{
    if venv_is_file {
        PythonPick::Venv(venv_python(windows))
    } else if windows {
        PythonPick::OnPath("python".to_owned())
    } else {
        PythonPick::OnPath("python3".to_owned())
    }
}

/// How many directories, starting with the start directory itself, are
/// searched upwards for a gateway source checkout.
pub const REPO_SEARCH_DEPTH: u32 = 8;

/// A filesystem question the launch search asks.
#[derive(Debug, Clone, Copy, PartialEq, Eq, Structural)]
pub enum LaunchProbe {
    /// Is `WHISPR_GATEWAY_BIN` set, naming a file?
    Override,
    /// Is candidate `which` of [`gateway_binary_candidates`] under root
    /// directory `root` a file?
    Bundled { root: usize, which: usize },
    /// Is there a directory `up` levels above start directory `start`, and
    /// does it hold `server/gateway/app/main.py`?
    Repo { start: usize, up: u32 },
    /// Is the venv interpreter of the checkout `server/gateway`, `up` levels
    /// above start directory `start`, a file?
    Venv { start: usize, up: u32 },
}

/// The answer to a [`LaunchProbe`].
#[derive(Debug, Clone, Copy, PartialEq, Eq, Structural)]
pub enum ProbeAnswer {
    /// There is no such directory: the walk went past the filesystem root.
    NoDir,
    /// Whether the file exists.
    File(bool),
}

/// Where the gateway is launched from.
#[derive(Debug, Clone, Copy, PartialEq, Eq, Structural)]
pub enum LaunchFound {
    /// The executable named by `WHISPR_GATEWAY_BIN`.
    Override,
    /// Candidate `which` under root directory `root`.
    Bundled { root: usize, which: usize },
    /// The checkout `server/gateway`, `up` levels above start directory
    /// `start`; `venv` tells whether its own interpreter exists.
    Repo { start: usize, up: u32, venv: bool },
}

/// What the launch search does after an answer.
#[derive(Debug, Clone, Copy, PartialEq, Eq, Structural)]
pub enum SearchStep {
    /// Ask this probe next.
    Ask(LaunchProbe),
    /// The search is over, with the launch found, if any.
    Done(Option<LaunchFound>),
}

/// The search of the source checkouts, from its first probe.
pub open spec fn repo_search_start(n_starts: usize) -> SearchStep {
    if n_starts > 0 {
        SearchStep::Ask(LaunchProbe::Repo { start: 0, up: 0 })
    } else {
        SearchStep::Done(None)
    }
}

/// The search of the bundled executables, from its first probe.
pub open spec fn bundled_search_start(n_roots: usize, n_starts: usize) -> SearchStep {
    if n_roots > 0 {
        SearchStep::Ask(LaunchProbe::Bundled { root: 0, which: 0 })
    } else {
        repo_search_start(n_starts)
    }
}

/// Launch discovery order: the `WHISPR_GATEWAY_BIN` override, then the four
/// bundled candidates under each root directory, then a source checkout
/// found walking up at most [`REPO_SEARCH_DEPTH`] directories from each start
/// directory. A walk that runs out of parent directories ends the whole
/// search without a launch.
pub open spec fn launch_step_spec(
    n_roots: usize,
    n_starts: usize,
    probe: LaunchProbe,
    answer: ProbeAnswer,
) -> SearchStep {
    match probe {
        LaunchProbe::Override => if answer == ProbeAnswer::File(true) {
            SearchStep::Done(Some(LaunchFound::Override))
        } else {
            bundled_search_start(n_roots, n_starts)
        },
        LaunchProbe::Bundled { root, which } => if answer == ProbeAnswer::File(true) {
            SearchStep::Done(Some(LaunchFound::Bundled { root, which }))
        } else if which + 1 < 4 {
            SearchStep::Ask(LaunchProbe::Bundled { root, which: (which + 1) as usize })
        } else if root + 1 < n_roots {
            SearchStep::Ask(LaunchProbe::Bundled { root: (root + 1) as usize, which: 0 })
        } else {
            repo_search_start(n_starts)
        },
        LaunchProbe::Repo { start, up } => match answer {
            ProbeAnswer::NoDir => SearchStep::Done(None),
            ProbeAnswer::File(true) => SearchStep::Ask(LaunchProbe::Venv { start, up }),
            ProbeAnswer::File(false) => if up + 1 < REPO_SEARCH_DEPTH {
                SearchStep::Ask(LaunchProbe::Repo { start, up: (up + 1) as u32 })
            } else if start + 1 < n_starts {
                SearchStep::Ask(LaunchProbe::Repo { start: (start + 1) as usize, up: 0 })
            } else {
                SearchStep::Done(None)
            },
        },
        LaunchProbe::Venv { start, up } => SearchStep::Done(
            Some(LaunchFound::Repo { start, up, venv: answer == ProbeAnswer::File(true) }),
        ),
    }
}

/// The probe names an existing root, start directory and candidate, and
/// stays within the search depth.
pub open spec fn probe_in_range(n_roots: usize, n_starts: usize, p: LaunchProbe) -> bool {
    match p {
        LaunchProbe::Override => true,
        LaunchProbe::Bundled { root, which } => root < n_roots && which < 4,
        LaunchProbe::Repo { start, up } => start < n_starts && up < REPO_SEARCH_DEPTH,
        LaunchProbe::Venv { start, up } => start < n_starts && up < REPO_SEARCH_DEPTH,
    }
}

/// An upper bound on the probes still to come, this one included.
pub open spec fn probes_left(n_roots: usize, n_starts: usize, p: LaunchProbe) -> int {
    match p {
        LaunchProbe::Override => 1 + 4 * n_roots + 9 * n_starts,
        LaunchProbe::Bundled { root, which } => (4 - which) + 4 * (n_roots - root - 1) + 9
            * n_starts,
        LaunchProbe::Repo { start, up } => (REPO_SEARCH_DEPTH - up) + 1 + 9 * (n_starts - start
            - 1),
        LaunchProbe::Venv { .. } => 1,
    }
}

/// One step of the launch search: the answer to `probe` decides the next
/// probe or the result. Probes stay in range, and each step brings the
/// search closer to its end: it asks at most `1 + 4 * n_roots + 9 * n_starts`
/// probes in all.
pub fn launch_step(n_roots: usize, n_starts: usize, probe: LaunchProbe, answer: ProbeAnswer) -> (s:
    SearchStep)
    ensures
        s == launch_step_spec(n_roots, n_starts, probe, answer),
        probe_in_range(n_roots, n_starts, probe) ==> probes_left(n_roots, n_starts, probe) >= 1,
        probe_in_range(n_roots, n_starts, probe) ==> (s matches SearchStep::Ask(q) ==> (
        probe_in_range(n_roots, n_starts, q) && probes_left(n_roots, n_starts, q) < probes_left(
            n_roots,
            n_starts,
            probe,
        ))),
{
    let found = answer == ProbeAnswer::File(true);
    match probe {
        LaunchProbe::Override => {
            if found {
                SearchStep::Done(Some(LaunchFound::Override))
            } else if n_roots > 0 {
                SearchStep::Ask(LaunchProbe::Bundled { root: 0, which: 0 })
            } else if n_starts > 0 {
                SearchStep::Ask(LaunchProbe::Repo { start: 0, up: 0 })
            } else {
                SearchStep::Done(None)
            }
        },
        LaunchProbe::Bundled { root, which } => {
            if found {
                SearchStep::Done(Some(LaunchFound::Bundled { root, which }))
            } else if which < 3 {
                SearchStep::Ask(LaunchProbe::Bundled { root, which: which + 1 })
            } else if root < n_roots && root + 1 < n_roots {
                SearchStep::Ask(LaunchProbe::Bundled { root: root + 1, which: 0 })
            } else if n_starts > 0 {
                SearchStep::Ask(LaunchProbe::Repo { start: 0, up: 0 })
            } else {
                SearchStep::Done(None)
            }
        },
        LaunchProbe::Repo { start, up } => {
            match answer {
                ProbeAnswer::NoDir => SearchStep::Done(None),
                ProbeAnswer::File(true) => SearchStep::Ask(LaunchProbe::Venv { start, up }),
                ProbeAnswer::File(false) => {
                    if up < REPO_SEARCH_DEPTH - 1 {
                        SearchStep::Ask(LaunchProbe::Repo { start, up: up + 1 })
                    } else if start < n_starts && start + 1 < n_starts {
                        SearchStep::Ask(LaunchProbe::Repo { start: start + 1, up: 0 })
                    } else {
                        SearchStep::Done(None)
                    }
                },
            }
        },
        LaunchProbe::Venv { start, up } => SearchStep::Done(
            Some(LaunchFound::Repo { start, up, venv: found }),
        ),
    }
}

/// Every loopback gateway is managed: with management on, a URL whose host
/// is `127.0.0.1`, `localhost` or `::1` gives a plan to manage that host
/// and port.
pub proof fn law_every_loopback_gateway_managed(cfg: AppConfig, plan: GatewayPlan, h: Seq<char>, p: u16)
    requires
        plan_ok(cfg, plan),
        cfg.manage_gateway,
        endpoint_spec(cfg.gateway_url@) == Some((h, p)),
        h == "127.0.0.1"@ || h == "localhost"@ || h == "::1"@,
    ensures
        plan matches GatewayPlan::Manage { host, port } && host@ == h && port == p,
{
}

} // verus!
