//! The decisions behind the desktop client's commands: how the per-platform
//! sync results of a project are combined, which addresses of the machine are
//! offered on the local network, and where a bundle version is uploaded.
use vstd::prelude::*;
use crate::text::{
    joined, chars_of, concat, contains_str, first_solid_from, has_infix, has_prefix, is_white,
    is_whitespace, parse_unsigned, parse_unsigned_spec, split_chars, split_parts, starts_with,
    str_eq, string_from_chars, trim, trim_spec,
};
use crate::remote::serve::{split_once, split_once_spec};
use crate::local::sync::{SyncResult, SyncView};
use crate::remote::config::{opt_view, strings_view};

verus! {

/// The latest and synchronised bundle versions of one platform.
#[derive(Debug)]
pub struct PlatformVersionInfo {
    /// The platform.
    pub platform: String,
    /// The newest version in the build output.
    pub latest: Option<String>,
    /// The version synchronised into the platform's directory.
    pub synced: Option<String>,
}

/// What a remote server answers to an upload.
#[derive(Debug)]
pub struct RemoteUploadResult {
    /// Whether the upload was stored.
    pub success: bool,
    /// The bundle version uploaded.
    pub version: String,
    /// The platform uploaded for.
    pub platform: String,
    /// How many files were stored.
    pub file_count: u32,
}

/// The log line of one platform's sync: `[{platform}] {message}`.
pub open spec fn platform_line_spec(platform: Seq<char>, message: Seq<char>) -> Seq<char> {
    "["@ + platform + "] "@ + message
}

/// The log line of one platform's sync.
pub fn platform_line(platform: &str, message: &str) -> (r: String)
    ensures
        r@ == platform_line_spec(platform@, message@),
{
    let a = concat("[", platform);
    let b = concat(a.as_str(), "] ");
    concat(b.as_str(), message)
}

/// The log lines of a project's syncs, one per platform.
pub open spec fn sync_lines(platforms: Seq<Seq<char>>, results: Seq<SyncView>) -> Seq<Seq<char>> {
    Seq::new(results.len(), |i: int| platform_line_spec(platforms[i], results[i].message))
}

/// The files copied by the syncs that took place, in order.
pub open spec fn copied_files(results: Seq<SyncView>) -> Seq<Seq<char>>
    decreases results.len(),
{
    if results.len() == 0 {
        Seq::empty()
    } else {
        copied_files(results.drop_last()) + if results.last().success {
            results.last().synced_files
        } else {
            Seq::empty()
        }
    }
}

/// The version of the last sync that took place.
pub open spec fn last_synced_version(results: Seq<SyncView>) -> Option<Seq<char>>
    decreases results.len(),
{
    if results.len() == 0 {
        None
    } else if results.last().success {
        results.last().version
    } else {
        last_synced_version(results.drop_last())
    }
}

/// The views of sync results.
pub open spec fn sync_views(v: Seq<SyncResult>) -> Seq<SyncView> {
    v.map_values(|r: SyncResult| r@)
}

/// The pieces of a project's combined sync result: the joined log lines and
/// the copied files.
fn combine_parts(platforms: &Vec<String>, results: &Vec<SyncResult>) -> (r: (String, Vec<String>))
    requires
        platforms.len() == results.len(),
    ensures
        r.0@ == joined(sync_lines(strings_view(platforms@), sync_views(results@)), "; "@),
        strings_view(r.1@) == copied_files(sync_views(results@)),
{
    let ghost ps = strings_view(platforms@);
    let ghost rs = sync_views(results@);
    let mut message = String::new();
    let mut files: Vec<String> = Vec::new();
    let mut i: usize = 0;
    proof {
        reveal_strlit("");
        assert(sync_lines(ps, rs.subrange(0, 0)) =~= Seq::<Seq<char>>::empty());
        assert(rs.subrange(0, 0) =~= Seq::<SyncView>::empty());
        assert(message@ =~= joined(sync_lines(ps, rs.subrange(0, 0)), "; "@));
        assert(strings_view(files@) =~= copied_files(rs.subrange(0, 0)));
    }
    while i < results.len()
        invariant
            platforms.len() == results.len(),
            ps == strings_view(platforms@),
            rs == sync_views(results@),
            i <= results.len(),
            message@ == joined(sync_lines(ps, rs.subrange(0, i as int)), "; "@),
            strings_view(files@) == copied_files(rs.subrange(0, i as int)),
        decreases results.len() - i,
    {
        let line = platform_line(platforms[i].as_str(), results[i].message.as_str());
        let ghost pre = rs.subrange(0, i as int);
        let ghost next = rs.subrange(0, i + 1);
        proof {
            assert(next.drop_last() =~= pre);
            assert(sync_lines(ps, next).drop_last() =~= sync_lines(ps, pre));
            assert(sync_lines(ps, next).last() == line@);
        }
        if i > 0 {
            let m = concat(message.as_str(), "; ");
            message = concat(m.as_str(), line.as_str());
        } else {
            message = line;
        }
        if results[i].success {
            let mut k: usize = 0;
            let ghost before = files@;
            while k < results[i].synced_files.len()
                invariant
                    i < results.len(),
                    k <= results@[i as int].synced_files@.len(),
                    strings_view(files@) == strings_view(before) + strings_view(results@[i as int].synced_files@.subrange(0, k as int)),
                decreases results@[i as int].synced_files@.len() - k,
            {
                let ghost fb = files@;
                files.push(results[i].synced_files[k].clone());
                proof {
                    assert(strings_view(files@) =~= strings_view(fb).push(results@[i as int].synced_files@[k as int]@));
                    assert(strings_view(results@[i as int].synced_files@.subrange(0, k + 1)) =~= strings_view(
                        results@[i as int].synced_files@.subrange(0, k as int),
                    ).push(results@[i as int].synced_files@[k as int]@));
                }
                k = k + 1;
            }
            proof {
                assert(results@[i as int].synced_files@.subrange(0, k as int) =~= results@[i as int].synced_files@);
                assert(rs[i as int].synced_files == strings_view(results@[i as int].synced_files@));
            }
        }
        i = i + 1;
    }
    proof {
        assert(rs.subrange(0, results.len() as int) =~= rs);
    }
    (message, files)
}

/// The result of syncing every platform of a project with its newest
/// version: always successful, its message the platforms' log lines joined by
/// `; `, its version that of the last sync that took place, its files those
/// copied by the syncs that took place.
pub fn combine_sync(platforms: &Vec<String>, results: Vec<SyncResult>) -> (r: SyncResult)
    requires
        platforms.len() == results.len(),
    ensures
        r@ == (SyncView {
            success: true,
            message: joined(sync_lines(strings_view(platforms@), sync_views(results@)), "; "@),
            version: last_synced_version(sync_views(results@)),
            synced_files: copied_files(sync_views(results@)),
        }),
{
    let (message, files) = combine_parts(platforms, &results);
    let ghost rs = sync_views(results@);
    let mut version: Option<String> = None;
    let mut i: usize = 0;
    proof {
        assert(rs.subrange(0, 0) =~= Seq::<SyncView>::empty());
    }
    while i < results.len()
        invariant
            rs == sync_views(results@),
            i <= results.len(),
            opt_view(version) == last_synced_version(rs.subrange(0, i as int)),
        decreases results.len() - i,
    {
        proof {
            assert(rs.subrange(0, i + 1).drop_last() =~= rs.subrange(0, i as int));
        }
        if results[i].success {
            version = match &results[i].version {
                Some(v) => Some(v.clone()),
                None => None,
            };
        }
        i = i + 1;
    }
    proof {
        assert(rs.subrange(0, results.len() as int) =~= rs);
    }
    SyncResult { success: true, message, version, synced_files: files }
}

/// The result of syncing every platform of a project with the bundle version
/// `version`: like `combine_sync`, but its version is the one asked for.
pub fn combine_version_sync(platforms: &Vec<String>, results: Vec<SyncResult>, version: String) -> (r: SyncResult)
    requires
        platforms.len() == results.len(),
    ensures
        r@ == (SyncView {
            success: true,
            message: joined(sync_lines(strings_view(platforms@), sync_views(results@)), "; "@),
            version: Some(version@),
            synced_files: copied_files(sync_views(results@)),
        }),
{
    let (message, files) = combine_parts(platforms, &results);
    SyncResult { success: true, message, version: Some(version), synced_files: files }
}

/// An address on a private network: `192.168.…`, `10.…`, or `172.x.…` with
/// `x` from 16 to 31.
pub open spec fn is_lan_ip_spec(ip: Seq<char>) -> bool {
    ||| has_prefix(ip, "192.168."@)
    ||| has_prefix(ip, "10."@)
    ||| has_prefix(ip, "172."@) && match parse_unsigned_spec(split_once_spec(ip.skip(4), '.').0, 255) {
        Some(n) => 16 <= n <= 31,
        None => false,
    }
}

/// Whether `ip` is an address on a private network.
pub fn is_lan_ip(ip: &str) -> (r: bool)
    ensures
        r == is_lan_ip_spec(ip@),
{
    if starts_with(ip, "192.168.") || starts_with(ip, "10.") {
        return true;
    }
    if !starts_with(ip, "172.") {
        return false;
    }
    let v = chars_of(ip);
    proof {
        reveal_strlit("172.");
    }
    let rest = &v.as_slice()[4..v.len()];
    assert(rest@ == ip@.skip(4));
    let (second, _) = split_once(rest, '.');
    let s = string_from_chars(second.as_slice());
    match parse_unsigned(s.as_str(), 255) {
        Some(n) => 16 <= n && n <= 31,
        None => false,
    }
}

/// The index of the first white-space character of `s` at or after `k`, or
/// the length of `s`.
pub open spec fn first_white_from(s: Seq<char>, k: int) -> int
    decreases s.len() - k,
{
    if k >= s.len() {
        s.len() as int
    } else if is_white(s[k]) {
        k
    } else {
        first_white_from(s, k + 1)
    }
}

/// The word that follows the first four characters of `line` (for a line that
/// starts with `inet `, its second word as `split_whitespace().nth(1)` gives
/// it), if there is one.
pub open spec fn word_after_inet(line: Seq<char>) -> Option<Seq<char>> {
    let start = first_solid_from(line, 4);
    if start >= line.len() {
        None
    } else {
        Some(line.subrange(start, first_white_from(line, start)))
    }
}

/// The private-network address a line of `ifconfig` output offers, if any:
/// a line that, trimmed, starts with `inet `, does not mention `127.0.0.1`,
/// and whose second word is such an address.
pub open spec fn ifconfig_address(raw: Seq<char>) -> Option<Seq<char>> {
    let line = trim_spec(raw);
    if has_prefix(line, "inet "@) && !has_infix(line, "127.0.0.1"@) {
        match word_after_inet(line) {
            Some(ip) => if is_lan_ip_spec(ip) { Some(ip) } else { None },
            None => None,
        }
    } else {
        None
    }
}

/// The private-network address a line of `ipconfig` output offers, if any: a
/// line that mentions `IPv4` and whose text after its last `:`, trimmed, is
/// such an address.
pub open spec fn ipconfig_address(raw: Seq<char>) -> Option<Seq<char>> {
    let line = trim_spec(raw);
    if has_infix(line, "IPv4"@) {
        let ip = trim_spec(split_parts(line, ':').last());
        if is_lan_ip_spec(ip) { Some(ip) } else { None }
    } else {
        None
    }
}

/// The offered addresses in order, each kept once.
pub open spec fn distinct_in_order(offers: Seq<Option<Seq<char>>>) -> Seq<Seq<char>>
    decreases offers.len(),
{
    if offers.len() == 0 {
        Seq::empty()
    } else {
        let acc = distinct_in_order(offers.drop_last());
        match offers.last() {
            Some(ip) => if acc.contains(ip) { acc } else { acc.push(ip) },
            None => acc,
        }
    }
}

/// The private-network addresses found in command output `text`, in order
/// of appearance, each once; the lines of `text` are its parts between line
/// feeds (a carriage return before one is white space, trimmed off).
pub open spec fn found_addresses(text: Seq<char>, windows: bool) -> Seq<Seq<char>> {
    distinct_in_order(
        split_parts(text, '\n').map_values(
            |l: Seq<char>| if windows { ipconfig_address(l) } else { ifconfig_address(l) },
        ),
    )
}

fn word_after(line: &[char]) -> (r: Option<Vec<char>>)
    ensures
        match word_after_inet(line@) {
            Some(w) => r matches Some(v) && v@ == w,
            None => r is None,
        },
{
    let mut i: usize = 4;
    if line.len() <= 4 {
        proof {
            assert(first_solid_from(line@, 4) == line@.len());
        }
        return None;
    }
    while i < line.len() && is_whitespace(line[i])
        invariant
            4 <= i <= line.len(),
            first_solid_from(line@, 4) == first_solid_from(line@, i as int),
        decreases line.len() - i,
    {
        i = i + 1;
    }
    if i >= line.len() {
        return None;
    }
    let start = i;
    let mut j: usize = i;
    while j < line.len() && !is_whitespace(line[j])
        invariant
            start <= j <= line.len(),
            first_white_from(line@, start as int) == first_white_from(line@, j as int),
        decreases line.len() - j,
    {
        j = j + 1;
    }
    Some(vstd::slice::slice_to_vec(&line[start..j]))
}

/// What a line of `ifconfig` output offers (see `ifconfig_address`).
fn ifconfig_offer(raw: &[char]) -> (r: Option<String>)
    ensures
        opt_view(r) == ifconfig_address(raw@),
{
    let raw_s = string_from_chars(raw);
    let line = trim(raw_s.as_str());
    if !starts_with(line.as_str(), "inet ") || contains_str(line.as_str(), "127.0.0.1") {
        return None;
    }
    let v = chars_of(line.as_str());
    match word_after(v.as_slice()) {
        Some(w) => {
            let ip = string_from_chars(w.as_slice());
            if is_lan_ip(ip.as_str()) {
                Some(ip)
            } else {
                None
            }
        },
        None => None,
    }
}

/// What a line of `ipconfig` output offers (see `ipconfig_address`).
fn ipconfig_offer(raw: &[char]) -> (r: Option<String>)
    ensures
        opt_view(r) == ipconfig_address(raw@),
{
    let raw_s = string_from_chars(raw);
    let line = trim(raw_s.as_str());
    if !contains_str(line.as_str(), "IPv4") {
        return None;
    }
    let v = chars_of(line.as_str());
    let parts = split_chars(v.as_slice(), ':');
    proof {
        crate::text::lemma_split_parts_nonempty(line@, ':');
        assert(parts@.len() > 0);
        assert(parts@[parts@.len() - 1]@ == split_parts(line@, ':').last());
    }
    let last = string_from_chars(parts[parts.len() - 1].as_slice());
    let ip = trim(last.as_str());
    if is_lan_ip(ip.as_str()) {
        Some(ip)
    } else {
        None
    }
}

/// The private-network addresses that the output `text` of `ipconfig`
/// (`windows`) or `ifconfig` shows, in order of appearance, each once.
pub fn local_addresses(text: &str, windows: bool) -> (r: Vec<String>)
    ensures
        strings_view(r@) == found_addresses(text@, windows),
{
    let v = chars_of(text);
    let lines = split_chars(v.as_slice(), '\n');
    let ghost offers = split_parts(text@, '\n').map_values(
        |l: Seq<char>| if windows { ipconfig_address(l) } else { ifconfig_address(l) },
    );
    let mut out: Vec<String> = Vec::new();
    let mut i: usize = 0;
    proof {
        assert(offers.subrange(0, 0) =~= Seq::<Option<Seq<char>>>::empty());
        assert(strings_view(out@) =~= Seq::<Seq<char>>::empty());
    }
    while i < lines.len()
        invariant
            lines@.map_values(|l: Vec<char>| l@) == split_parts(text@, '\n'),
            offers == split_parts(text@, '\n').map_values(
                |l: Seq<char>| if windows { ipconfig_address(l) } else { ifconfig_address(l) },
            ),
            i <= lines@.len(),
            strings_view(out@) == distinct_in_order(offers.subrange(0, i as int)),
        decreases lines.len() - i,
    {
        proof {
            assert(offers.subrange(0, i + 1).drop_last() =~= offers.subrange(0, i as int));
            assert(lines@[i as int]@ == split_parts(text@, '\n')[i as int]);
        }
        let offer = if windows {
            ipconfig_offer(lines[i].as_slice())
        } else {
            ifconfig_offer(lines[i].as_slice())
        };
        match offer {
            Some(ip) => {
                let mut seen = false;
                let mut k: usize = 0;
                while k < out.len()
                    invariant
                        k <= out@.len(),
                        seen == exists|m: int| 0 <= m < k && out@[m]@ == ip@,
                    decreases out.len() - k,
                {
                    if str_eq(out[k].as_str(), ip.as_str()) {
                        seen = true;
                    }
                    k = k + 1;
                }
                proof {
                    let acc = strings_view(out@);
                    if seen {
                        let m = choose|m: int| 0 <= m < out@.len() && out@[m]@ == ip@;
                        assert(acc[m] == ip@);
                    } else {
                        assert(!acc.contains(ip@)) by {
                            if acc.contains(ip@) {
                                let m = choose|m: int| 0 <= m < acc.len() && acc[m] == ip@;
                                assert(out@[m]@ == ip@);
                            }
                        }
                    }
                }
                if !seen {
                    let ghost before = out@;
                    out.push(ip);
                    proof {
                        assert(strings_view(out@) =~= strings_view(before).push(out@[out@.len() - 1]@));
                    }
                }
            },
            None => {},
        }
        i = i + 1;
    }
    proof {
        assert(offers.subrange(0, lines@.len() as int) =~= offers);
    }
    out
}

/// An address offered first: one on a `192.168.` network.
pub open spec fn offered_first(ip: Seq<char>) -> bool {
    has_prefix(ip, "192.168."@)
}

/// The addresses `ips` with those on `192.168.` networks first; each group
/// keeps its order (the stable sort by that priority).
pub fn prioritize_addresses(ips: &Vec<String>) -> (r: Vec<String>)
    ensures
        strings_view(r@) == strings_view(ips@).filter(|ip: Seq<char>| offered_first(ip)) + strings_view(ips@).filter(
            |ip: Seq<char>| !offered_first(ip),
        ),
{
    let ghost all = strings_view(ips@);
    let ghost f = |ip: Seq<char>| offered_first(ip);
    let ghost g = |ip: Seq<char>| !offered_first(ip);
    let mut first: Vec<String> = Vec::new();
    let mut rest: Vec<String> = Vec::new();
    let mut i: usize = 0;
    while i < ips.len()
        invariant
            all == strings_view(ips@),
            f == (|ip: Seq<char>| offered_first(ip)),
            g == (|ip: Seq<char>| !offered_first(ip)),
            i <= ips@.len(),
            strings_view(first@) == all.subrange(0, i as int).filter(f),
            strings_view(rest@) == all.subrange(0, i as int).filter(g),
        decreases ips.len() - i,
    {
        proof {
            assert(all.subrange(0, i + 1) =~= all.subrange(0, i as int).push(all[i as int]));
            all.subrange(0, i as int).lemma_filter_push(all[i as int], f);
            all.subrange(0, i as int).lemma_filter_push(all[i as int], g);
            assert(all[i as int] == ips@[i as int]@);
        }
        let ghost fb = first@;
        let ghost rb = rest@;
        if starts_with(ips[i].as_str(), "192.168.") {
            first.push(ips[i].clone());
            proof {
                assert(strings_view(first@) =~= strings_view(fb).push(all[i as int]));
            }
        } else {
            rest.push(ips[i].clone());
            proof {
                assert(strings_view(rest@) =~= strings_view(rb).push(all[i as int]));
            }
        }
        i = i + 1;
    }
    proof {
        assert(all.subrange(0, ips@.len() as int) =~= all);
    }
    let ghost fv = first@;
    let mut k: usize = 0;
    while k < rest.len()
        invariant
            k <= rest@.len(),
            strings_view(first@) == strings_view(fv) + strings_view(rest@.subrange(0, k as int)),
        decreases rest.len() - k,
    {
        let ghost fb = first@;
        first.push(rest[k].clone());
        proof {
            assert(strings_view(first@) =~= strings_view(fb).push(rest@[k as int]@));
            assert(strings_view(rest@.subrange(0, k + 1)) =~= strings_view(rest@.subrange(0, k as int)).push(rest@[k as int]@));
        }
        k = k + 1;
    }
    proof {
        assert(rest@.subrange(0, rest@.len() as int) =~= rest@);
    }
    first
}

/// `s` with every trailing repetition of `c` removed (`str::trim_end_matches`).
pub open spec fn strip_trailing(s: Seq<char>, c: char) -> Seq<char>
    decreases s.len(),
{
    if s.len() > 0 && s.last() == c {
        strip_trailing(s.drop_last(), c)
    } else {
        s
    }
}

/// `s` with every trailing `c` removed.
pub fn trim_end_char(s: &str, c: char) -> (r: String)
    ensures
        r@ == strip_trailing(s@, c),
{
    let v = chars_of(s);
    let mut e: usize = v.len();
    proof {
        assert(v@.subrange(0, e as int) =~= s@);
    }
    while e > 0 && v[e - 1] == c
        invariant
            e <= v@.len(),
            v@ == s@,
            strip_trailing(s@, c) == strip_trailing(v@.subrange(0, e as int), c),
        decreases e,
    {
        proof {
            assert(v@.subrange(0, e as int).drop_last() =~= v@.subrange(0, e - 1));
        }
        e = e - 1;
    }
    string_from_chars(&v.as_slice()[0..e])
}

/// An upper-case hexadecimal digit for `d < 16`.
pub open spec fn upper_hex_digit(d: nat) -> char {
    if d < 10 {
        (('0' as nat) + d) as char
    } else {
        (('A' as nat) + d - 10) as char
    }
}

/// A byte that URL encoding keeps: an ASCII letter or digit, `-`, `_`, `.` or `~`.
pub open spec fn is_unreserved(b: u8) -> bool {
    (0x30 <= b <= 0x39) || (0x41 <= b <= 0x5a) || (0x61 <= b <= 0x7a) || b == 0x2d || b == 0x5f || b == 0x2e || b == 0x7e
}

/// The URL encoding of the bytes `bytes`: each kept byte as its character,
/// each other byte as `%` and two upper-case hexadecimal digits.
pub open spec fn url_encoding(bytes: Seq<u8>) -> Seq<char>
    decreases bytes.len(),
{
    if bytes.len() == 0 {
        Seq::empty()
    } else {
        let b = bytes.last();
        url_encoding(bytes.drop_last()) + if is_unreserved(b) {
            seq![b as char]
        } else {
            seq!['%', upper_hex_digit((b / 16) as nat), upper_hex_digit((b % 16) as nat)]
        }
    }
}

fn upper_hex_char(d: u8) -> (c: char)
    requires
        d < 16,
    ensures
        c == upper_hex_digit(d as nat),
{
    if d < 10 {
        (48u8 + d) as char
    } else {
        (55u8 + d) as char
    }
}

/// The URL encoding of the UTF-8 bytes of `s` (what `urlencoding::encode`
/// gives): each ASCII letter or digit, `-`, `_`, `.` and `~` kept, every other
/// byte as `%` and two upper-case hexadecimal digits.
pub fn url_encode(s: &str) -> (r: String)
    ensures
        r@ == url_encoding(vstd::utf8::encode_utf8(s@)),
{
    let bytes = s.as_bytes();
    let mut r = String::new();
    let mut i: usize = 0;
    proof {
        assert(bytes@.subrange(0, 0) =~= Seq::<u8>::empty());
    }
    while i < bytes.len()
        invariant
            i <= bytes@.len(),
            r@ == url_encoding(bytes@.subrange(0, i as int)),
        decreases bytes.len() - i,
    {
        let b = bytes[i];
        let ghost prefix = bytes@.subrange(0, i + 1);
        assert(prefix.drop_last() =~= bytes@.subrange(0, i as int));
        assert(prefix.last() == b);
        let keep = (0x30 <= b && b <= 0x39) || (0x41 <= b && b <= 0x5a) || (0x61 <= b && b <= 0x7a) || b == 0x2d
            || b == 0x5f || b == 0x2e || b == 0x7e;
        if keep {
            crate::text::push_char(&mut r, b as char);
        } else {
            crate::text::push_char(&mut r, '%');
            crate::text::push_char(&mut r, upper_hex_char(b / 16));
            crate::text::push_char(&mut r, upper_hex_char(b % 16));
        }
        assert(r@ =~= url_encoding(prefix));
        i = i + 1;
    }
    assert(bytes@.subrange(0, bytes@.len() as int) =~= bytes@);
    r
}

/// The address a bundle version is uploaded to:
/// `{server}/api/projects/{project}/project-versions/{project version}/upload`,
/// the server URL without trailing slashes and the project version
/// URL-encoded.
pub open spec fn upload_url_spec(server_url: Seq<char>, project_id: Seq<char>, project_version: Seq<char>) -> Seq<char> {
    strip_trailing(server_url, '/') + "/api/projects/"@ + project_id + "/project-versions/"@ + url_encoding(
        vstd::utf8::encode_utf8(project_version),
    ) + "/upload"@
}

/// The address a bundle version is uploaded to (see `upload_url_spec`).
pub fn upload_url(server_url: &str, project_id: &str, project_version: &str) -> (r: String)
    ensures
        r@ == upload_url_spec(server_url@, project_id@, project_version@),
{
    let base = trim_end_char(server_url, '/');
    let a = concat(base.as_str(), "/api/projects/");
    let b = concat(a.as_str(), project_id);
    let c = concat(b.as_str(), "/project-versions/");
    let e = url_encode(project_version);
    let d = concat(c.as_str(), e.as_str());
    concat(d.as_str(), "/upload")
}

/// Prioritizing the offered addresses keeps every address, as often as it
/// was found.
pub proof fn law_prioritizing_keeps_addresses(ips: Seq<Seq<char>>)
    ensures
        (ips.filter(|ip: Seq<char>| offered_first(ip)) + ips.filter(|ip: Seq<char>| !offered_first(ip))).to_multiset()
            == ips.to_multiset(),
    decreases ips.len(),
{
    broadcast use vstd::multiset::group_multiset_axioms;
    let f = |ip: Seq<char>| offered_first(ip);
    let g = |ip: Seq<char>| !offered_first(ip);
    if ips.len() == 0 {
        assert(ips.filter(f) =~= Seq::<Seq<char>>::empty());
        assert(ips.filter(g) =~= Seq::<Seq<char>>::empty());
        assert((ips.filter(f) + ips.filter(g)) =~= ips);
    } else {
        let t = ips.drop_last();
        let x = ips.last();
        law_prioritizing_keeps_addresses(t);
        assert(ips =~= t.push(x));
        t.lemma_filter_push(x, f);
        t.lemma_filter_push(x, g);
        vstd::seq_lib::lemma_multiset_commutative(t.filter(f), t.filter(g));
        vstd::seq_lib::to_multiset_build(t, x);
        if offered_first(x) {
            vstd::seq_lib::lemma_multiset_commutative(t.filter(f).push(x), t.filter(g));
            vstd::seq_lib::to_multiset_build(t.filter(f), x);
        } else {
            vstd::seq_lib::lemma_multiset_commutative(t.filter(f), t.filter(g).push(x));
            vstd::seq_lib::to_multiset_build(t.filter(g), x);
        }
    }
}

/// No address is offered twice.
pub proof fn law_addresses_distinct(offers: Seq<Option<Seq<char>>>)
    ensures
        forall|i: int, j: int|
            0 <= i < j < distinct_in_order(offers).len() ==> distinct_in_order(offers)[i] != distinct_in_order(
                offers,
            )[j],
    decreases offers.len(),
{
    if offers.len() > 0 {
        law_addresses_distinct(offers.drop_last());
        let acc = distinct_in_order(offers.drop_last());
        match offers.last() {
            Some(ip) => if !acc.contains(ip) {
                assert forall|i: int, j: int| 0 <= i < j < acc.push(ip).len() implies acc.push(ip)[i] != acc.push(ip)[j] by {
                    if j == acc.len() {
                        assert(acc[i] != ip) by {
                            if acc[i] == ip {
                                assert(acc.contains(ip));
                            }
                        }
                    }
                }
            },
            None => {},
        }
    }
}

} // verus!
