//! Per-device commands: the argument convention of the bridge executable,
//! the fan-out of one command over a selection, and the parsing of what the
//! device workflows read back.
use vstd::prelude::*;
use vstd::string::StringExecFns;

use crate::device::{ids_view, lemma_ids_push, DeviceSelection};
use crate::dispatch::{execute_command_on_devices, fan_out_start, FanOut};
use crate::error::AdbError;
use crate::text::{
    chars_of, contains, line_spans, lines_of, span_contains, spans_view, word_spans, words_of,
};

verus! {

pub open spec fn inet() -> Seq<char> {
    seq!['i', 'n', 'e', 't']
}

pub open spec fn inet6() -> Seq<char> {
    seq!['i', 'n', 'e', 't', '6']
}

/// A line of an interface listing that carries an IPv4 address.
pub open spec fn is_inet_line(l: Seq<char>) -> bool {
    contains(l, inet()) && !contains(l, inet6())
}

/// The first IPv4 line among `lines`.
pub open spec fn first_inet_line(lines: Seq<Seq<char>>) -> Option<Seq<char>>
    decreases lines.len(),
{
    if lines.len() == 0 {
        None
    } else if is_inet_line(lines[0]) {
        Some(lines[0])
    } else {
        first_inet_line(lines.drop_first())
    }
}

/// The part of `f` before its first `'/'`.
pub open spec fn before_slash(f: Seq<char>) -> Seq<char>
    decreases f.len(),
{
    if f.len() == 0 {
        f
    } else if f[0] == '/' {
        Seq::empty()
    } else {
        seq![f[0]] + before_slash(f.drop_first())
    }
}

/// The address on an IPv4 line: its second word up to the first `'/'`
/// (empty where the word starts with `'/'`), where that word exists.
pub open spec fn line_address(l: Seq<char>) -> Option<Seq<char>> {
    let w = words_of(l);
    if w.len() >= 2 {
        Some(before_slash(w[1]))
    } else {
        None
    }
}

/// The IPv4 address of an interface listing, read from its first IPv4 line
/// only.
pub open spec fn ipv4_address(output: Seq<char>) -> Option<Seq<char>> {
    match first_inet_line(lines_of(output)) {
        Some(l) => line_address(l),
        None => None,
    }
}

/// Only the first IPv4 line of a listing counts: whatever lines that are
/// not IPv4 lines come before it and whatever lines come after it, the
/// address is the one that line gives.
pub proof fn lemma_first_inet_line_decides(
    output: Seq<char>,
    before: Seq<Seq<char>>,
    line: Seq<char>,
    after: Seq<Seq<char>>,
)
    requires
        forall|i: int| 0 <= i < before.len() ==> !is_inet_line(#[trigger] before[i]),
        is_inet_line(line),
    ensures
        first_inet_line(before + seq![line] + after) == Some(line),
        lines_of(output) == before + seq![line] + after ==> ipv4_address(output) == line_address(
            line,
        ),
    decreases before.len(),
{
    let all = before + seq![line] + after;
    if before.len() == 0 {
        assert(all[0] == line);
    } else {
        let rest = before.drop_first();
        assert forall|i: int| 0 <= i < rest.len() implies !is_inet_line(#[trigger] rest[i]) by {
            assert(rest[i] == before[i + 1]);
        }
        lemma_first_inet_line_decides(output, rest, line, after);
        assert(all[0] == before[0]);
        assert(all.drop_first() =~= rest + seq![line] + after);
    }
}

/// The end of the part of `cs[lo..hi]` before its first `'/'`.
fn slash_end(cs: &Vec<char>, lo: usize, hi: usize) -> (e: usize)
    requires
        lo <= hi <= cs@.len(),
    ensures
        lo <= e <= hi,
        cs@.subrange(lo as int, e as int) == before_slash(cs@.subrange(lo as int, hi as int)),
{
    let mut j: usize = lo;
    assert(cs@.subrange(lo as int, lo as int) + cs@.subrange(lo as int, hi as int) =~= cs@.subrange(
        lo as int,
        hi as int,
    ));
    while j < hi && cs[j] != '/'
        invariant
            lo <= j <= hi <= cs@.len(),
            before_slash(cs@.subrange(lo as int, hi as int)) == cs@.subrange(lo as int, j as int)
                + before_slash(cs@.subrange(j as int, hi as int)),
        decreases hi - j,
    {
        let ghost t = cs@.subrange(j as int, hi as int);
        assert(t.drop_first() =~= cs@.subrange(j + 1, hi as int));
        assert(cs@.subrange(lo as int, j as int) + seq![t[0]] =~= cs@.subrange(lo as int, j + 1));
        assert(cs@.subrange(lo as int, j as int) + (seq![t[0]] + before_slash(t.drop_first()))
            =~= cs@.subrange(lo as int, j + 1) + before_slash(cs@.subrange(j + 1, hi as int)));
        j = j + 1;
    }
    let ghost t = cs@.subrange(j as int, hi as int);
    assert(before_slash(t) =~= Seq::<char>::empty());
    assert(cs@.subrange(lo as int, j as int) + Seq::<char>::empty() =~= cs@.subrange(
        lo as int,
        j as int,
    ));
    j
}

/// The IPv4 address of an interface listing: the second word, cut at its
/// `'/'`, of the first line that holds `inet` and not `inet6`.
pub fn parse_ip_output(output: &str) -> (r: Option<String>)
    ensures
        match ipv4_address(output@) {
            Some(a) => r is Some && r->Some_0@ == a,
            None => r is None,
        },
{
    let cs = chars_of(output);
    let lines = line_spans(&cs);
    let v4: Vec<char> = vec!['i', 'n', 'e', 't'];
    let v6: Vec<char> = vec!['i', 'n', 'e', 't', '6'];
    let ghost all = lines_of(cs@);
    assert(all.skip(0) =~= all);
    let mut k: usize = 0;
    while k < lines.len()
        invariant
            k <= lines@.len(),
            all == lines_of(cs@),
            all == spans_view(cs@, lines@),
            cs@ == output@,
            v4@ == inet(),
            v6@ == inet6(),
            forall|j: int| 0 <= j < lines@.len() ==> 0 <= #[trigger] lines@[j].0 <= lines@[j].1 <= cs@.len(),
            first_inet_line(all) == first_inet_line(all.skip(k as int)),
        decreases lines.len() - k,
    {
        let (a, b) = lines[k];
        let ghost line = cs@.subrange(a as int, b as int);
        assert(all[k as int] == line);
        assert(all.skip(k as int)[0] == line);
        assert(all.skip(k as int).drop_first() =~= all.skip(k + 1));
        if span_contains(&cs, a, b, &v4) && !span_contains(&cs, a, b, &v6) {
            let ws = word_spans(&cs, a, b);
            let ghost w = words_of(line);
            assert(w == spans_view(cs@, ws@));
            if ws.len() < 2 {
                return None;
            }
            let (fa, fb) = ws[1];
            assert(w[1] == cs@.subrange(fa as int, fb as int));
            let e = slash_end(&cs, fa, fb);
            return Some(output.substring_char(fa, e).to_string());
        }
        k = k + 1;
    }
    None
}

pub open spec fn dash_s() -> Seq<char> {
    seq!['-', 's']
}

/// The arguments of the bridge executable that run `args` on `device`:
/// `-s <device>` before the command's own arguments.
pub open spec fn invocation(device: Seq<char>, args: Seq<Seq<char>>) -> Seq<Seq<char>> {
    seq![dash_s(), device] + args
}

/// The texts of a sequence of string slices.
pub open spec fn strs_view(v: Seq<&str>) -> Seq<Seq<char>> {
    v.map_values(|a: &str| a@)
}

/// The bridge arguments that run `args` on `device`.
pub fn device_command(device: &str, args: &[String]) -> (r: Vec<String>)
    ensures
        ids_view(r@) == invocation(device@, ids_view(args@)),
{
    let mut r: Vec<String> = Vec::new();
    let flag = "-s".to_string();
    let d = device.to_string();
    proof {
        reveal_strlit("-s");
        assert(flag@ =~= dash_s());
        lemma_ids_push(r@, flag);
    }
    r.push(flag);
    proof {
        lemma_ids_push(r@, d);
    }
    r.push(d);
    let mut k: usize = 0;
    while k < args.len()
        invariant
            k <= args@.len(),
            ids_view(r@) == seq![dash_s(), device@] + ids_view(args@.subrange(0, k as int)),
        decreases args.len() - k,
    {
        let a = args[k].clone();
        proof {
            lemma_ids_push(r@, a);
            assert(ids_view(args@.subrange(0, k + 1)) =~= ids_view(args@.subrange(0, k as int)).push(
                args@[k as int]@,
            ));
        }
        r.push(a);
        k = k + 1;
    }
    assert(args@.subrange(0, k as int) =~= args@);
    r
}

/// Owned copies of string slices.
pub fn owned_args(args: &[&str]) -> (r: Vec<String>)
    ensures
        ids_view(r@) == strs_view(args@),
{
    let mut r: Vec<String> = Vec::new();
    let mut k: usize = 0;
    while k < args.len()
        invariant
            k <= args@.len(),
            ids_view(r@) == strs_view(args@.subrange(0, k as int)),
        decreases args.len() - k,
    {
        let a = args[k].to_string();
        proof {
            lemma_ids_push(r@, a);
            assert(strs_view(args@.subrange(0, k + 1)) =~= strs_view(args@.subrange(0, k as int)).push(
                args@[k as int]@,
            ));
        }
        r.push(a);
        k = k + 1;
    }
    assert(args@.subrange(0, k as int) =~= args@);
    r
}

/// Stops a package: `shell am force-stop <package>` on each selected device.
pub fn stop_package(selection: DeviceSelection, package_name: &str) -> (r: FanOut)
    ensures
        r@ == fan_out_start(
            selection.targets(),
            seq!["shell"@, "am"@, "force-stop"@, package_name@],
        ),
{
    let args = ["shell", "am", "force-stop", package_name];
    let r = execute_command_on_devices(selection, &args);
    assert(strs_view(args@) =~= seq!["shell"@, "am"@, "force-stop"@, package_name@]);
    r
}

/// Launches a package: `shell monkey -p <package> -c
/// android.intent.category.LAUNCHER 1` on each selected device.
pub fn start_package(selection: DeviceSelection, package_name: &str) -> (r: FanOut)
    ensures
        r@ == fan_out_start(
            selection.targets(),
            seq![
                "shell"@,
                "monkey"@,
                "-p"@,
                package_name@,
                "-c"@,
                "android.intent.category.LAUNCHER"@,
                "1"@,
            ],
        ),
{
    let args = [
        "shell",
        "monkey",
        "-p",
        package_name,
        "-c",
        "android.intent.category.LAUNCHER",
        "1",
    ];
    let r = execute_command_on_devices(selection, &args);
    assert(strs_view(args@) =~= seq![
        "shell"@,
        "monkey"@,
        "-p"@,
        package_name@,
        "-c"@,
        "android.intent.category.LAUNCHER"@,
        "1"@,
    ]);
    r
}

/// Clears a package's storage: `shell pm clear <package>` on each selected
/// device.
pub fn clear_package(selection: DeviceSelection, package_name: &str) -> (r: FanOut)
    ensures
        r@ == fan_out_start(selection.targets(), seq!["shell"@, "pm"@, "clear"@, package_name@]),
{
    let args = ["shell", "pm", "clear", package_name];
    let r = execute_command_on_devices(selection, &args);
    assert(strs_view(args@) =~= seq!["shell"@, "pm"@, "clear"@, package_name@]);
    r
}

/// Installs an APK: `install <path>` on each selected device.
pub fn install_apk(selection: DeviceSelection, apk_path: &str) -> (r: FanOut)
    ensures
        r@ == fan_out_start(selection.targets(), seq!["install"@, apk_path@]),
{
    let args = ["install", apk_path];
    let r = execute_command_on_devices(selection, &args);
    assert(strs_view(args@) =~= seq!["install"@, apk_path@]);
    r
}

/// Removes a package: `uninstall <package>` on each selected device.
pub fn uninstall_package(selection: DeviceSelection, package_name: &str) -> (r: FanOut)
    ensures
        r@ == fan_out_start(selection.targets(), seq!["uninstall"@, package_name@]),
{
    let args = ["uninstall", package_name];
    let r = execute_command_on_devices(selection, &args);
    assert(strs_view(args@) =~= seq!["uninstall"@, package_name@]);
    r
}

/// The lines of a package listing that contain `search_term`, in order.
pub open spec fn matching_lines(lines: Seq<Seq<char>>, term: Seq<char>) -> Seq<Seq<char>>
    decreases lines.len(),
{
    if lines.len() == 0 {
        Seq::empty()
    } else {
        let rest = matching_lines(lines.drop_last(), term);
        if contains(lines.last(), term) {
            rest.push(lines.last())
        } else {
            rest
        }
    }
}

/// The lines of a package listing that contain `search_term`; none is no
/// error.
pub fn matching_packages(listing: &str, search_term: &str) -> (r: Vec<String>)
    ensures
        ids_view(r@) == matching_lines(lines_of(listing@), search_term@),
{
    let cs = chars_of(listing);
    let term = chars_of(search_term);
    let lines = line_spans(&cs);
    let ghost all = lines_of(cs@);
    let mut found: Vec<String> = Vec::new();
    assert(all.subrange(0, 0) =~= Seq::<Seq<char>>::empty());
    assert(ids_view(found@) =~= Seq::<Seq<char>>::empty());
    let mut k: usize = 0;
    while k < lines.len()
        invariant
            k <= lines@.len(),
            all == lines_of(cs@),
            all == spans_view(cs@, lines@),
            cs@ == listing@,
            term@ == search_term@,
            forall|j: int| 0 <= j < lines@.len() ==> 0 <= #[trigger] lines@[j].0 <= lines@[j].1 <= cs@.len(),
            ids_view(found@) == matching_lines(all.subrange(0, k as int), term@),
        decreases lines.len() - k,
    {
        let (a, b) = lines[k];
        let ghost line = cs@.subrange(a as int, b as int);
        assert(all[k as int] == line);
        assert(all.subrange(0, k + 1).drop_last() =~= all.subrange(0, k as int));
        assert(all.subrange(0, k + 1).last() == line);
        if span_contains(&cs, a, b, &term) {
            let l = listing.substring_char(a, b).to_string();
            proof {
                lemma_ids_push(found@, l);
            }
            found.push(l);
        }
        k = k + 1;
    }
    assert(all.subrange(0, k as int) =~= all);
    found
}

/// The port the bridge listens on over the network.
pub open spec fn wifi_port() -> Seq<char> {
    seq![':', '5', '5', '5', '5']
}

/// Where to connect over Wi-Fi: `<ip>:5555` for the address of the
/// interface listing; without one, the setup fails.
pub fn wifi_connect_address(listing: &str) -> (r: Result<String, AdbError>)
    ensures
        match ipv4_address(listing@) {
            Some(a) => r is Ok && r->Ok_0@ == a + wifi_port(),
            None => r == Err::<String, AdbError>(AdbError::NoIpAddress),
        },
{
    match parse_ip_output(listing) {
        Some(ip) => {
            let addr = ip.concat(":5555");
            proof {
                reveal_strlit(":5555");
                assert(":5555"@ =~= wifi_port());
            }
            Ok(addr)
        },
        None => Err(AdbError::NoIpAddress),
    }
}

/// The bridge arguments that run the fixed command `args` on `device`.
fn fixed_command(device: &str, args: &[&str]) -> (r: Vec<String>)
    ensures
        ids_view(r@) == invocation(device@, strs_view(args@)),
{
    let owned = owned_args(args);
    device_command(device, owned.as_slice())
}

/// Lists the device's wireless interface: `shell ip addr show wlan0`.
pub fn ip_listing_command(device: &str) -> (r: Vec<String>)
    ensures
        ids_view(r@) == invocation(device@, seq!["shell"@, "ip"@, "addr"@, "show"@, "wlan0"@]),
{
    let args = ["shell", "ip", "addr", "show", "wlan0"];
    let r = fixed_command(device, &args);
    assert(strs_view(args@) =~= seq!["shell"@, "ip"@, "addr"@, "show"@, "wlan0"@]);
    r
}

/// Captures the screen as PNG bytes on standard output: `exec-out
/// screencap -p`.
pub fn screenshot_command(device: &str) -> (r: Vec<String>)
    ensures
        ids_view(r@) == invocation(device@, seq!["exec-out"@, "screencap"@, "-p"@]),
{
    let args = ["exec-out", "screencap", "-p"];
    let r = fixed_command(device, &args);
    assert(strs_view(args@) =~= seq!["exec-out"@, "screencap"@, "-p"@]);
    r
}

/// Lists the installed packages: `shell pm list packages`.
pub fn package_list_command(device: &str) -> (r: Vec<String>)
    ensures
        ids_view(r@) == invocation(device@, seq!["shell"@, "pm"@, "list"@, "packages"@]),
{
    let args = ["shell", "pm", "list", "packages"];
    let r = fixed_command(device, &args);
    assert(strs_view(args@) =~= seq!["shell"@, "pm"@, "list"@, "packages"@]);
    r
}

} // verus!
