//! The desktop client's local file server: how it answers a request from the
//! build output, the directory pages it shows and the request log.
use vstd::prelude::*;
use vstd::arithmetic::div_mod::{lemma_div_denominator, lemma_fundamental_div_mod};
use crate::text::{joined, 
    chars_of, concat, decimal, decimal_string, ends_with, has_suffix, string_from_chars,
};
use crate::paths::{join, join_path, path_under, starts_with_path};
use crate::remote::serve::{
    guess_mime, guessed_mime, percent_decode_lossy, percent_decoded_lossy, split_once,
    split_once_spec, strip_prefixes, trim_start_matches,
};
use crate::local::config::AccessTable;
use crate::order::{
    Duplicate, arranged, keys_view, lemma_lex_total, lex_lt, sort_by_keys, text_key, text_key_of,
};

verus! {

/// `n / d` rounded to the nearest integer, halves to even.
pub open spec fn round_half_even(n: nat, d: nat) -> nat
    recommends
        d > 0,
{
    let q = n / d;
    let r = n % d;
    if 2 * r > d || (2 * r == d && q % 2 == 1) {
        q + 1
    } else {
        q
    }
}

/// The spacing of doubles around `b`: 1 below 2^53, doubling with each further
/// bit.
pub open spec fn double_spacing(b: nat) -> nat
    decreases b,
{
    if b < 0x20_0000_0000_0000 {
        1
    } else {
        2 * double_spacing(b / 2)
    }
}

/// The double nearest to `b`, ties to even: the value of `b as f64`.
pub open spec fn nearest_double(b: nat) -> nat {
    let p = double_spacing(b);
    round_half_even(b, p) * p
}

/// A number of tenths written with one decimal: `12.3`.
pub open spec fn tenths_text(t: nat) -> Seq<char> {
    decimal(t / 10) + "."@ + decimal(t % 10)
}

/// `b` bytes in units of `unit` bytes with one decimal, as `{:.1}` writes the
/// double `b as f64 / unit as f64`, and the unit's name.
pub open spec fn in_units(b: nat, unit: nat, name: Seq<char>) -> Seq<char> {
    tenths_text(round_half_even(nearest_double(b) * 10, unit)) + " "@ + name
}

/// A byte count for people: bytes below 1 KB, else KB, MB or GB (of 1024)
/// with one decimal.
pub open spec fn size_text(b: u64) -> Seq<char> {
    if b >= 0x4000_0000 {
        in_units(b as nat, 0x4000_0000, "GB"@)
    } else if b >= 0x10_0000 {
        in_units(b as nat, 0x10_0000, "MB"@)
    } else if b >= 0x400 {
        in_units(b as nat, 0x400, "KB"@)
    } else {
        decimal(b as nat) + " B"@
    }
}

fn round_half_even_exec(n: u128, d: u128) -> (r: u128)
    requires
        0 < d <= 0x1_0000_0000_0000_0000,
        n <= 0x1_0000_0000_0000_0000_0000_0000,
    ensures
        r == round_half_even(n as nat, d as nat),
        r <= n / d + 1,
{
    let q = n / d;
    let r = n % d;
    if 2 * r > d || (2 * r == d && q % 2 == 1) {
        assert(q < n / d + 1);
        q + 1
    } else {
        q
    }
}

fn nearest_double_exec(b: u64) -> (r: u128)
    ensures
        r == nearest_double(b as nat),
        r <= b + 0x1_0000,
{
    let mut m: u64 = b;
    let mut p: u128 = 1;
    while m >= 0x20_0000_0000_0000
        invariant
            0 < p,
            m as nat == b as nat / p as nat,
            double_spacing(b as nat) == p * double_spacing(m as nat),
            p * m <= b,
            p == 1 || m >= 0x10_0000_0000_0000,
        decreases m,
    {
        proof {
            assert(p <= 0x800) by (nonlinear_arith)
                requires
                    p * m <= b,
                    m >= 0x20_0000_0000_0000,
                    b < 0x1_0000_0000_0000_0000,
                    0 < p,
            ;
            lemma_div_denominator(b as int, p as int, 2);
            assert(double_spacing(m as nat) == 2 * double_spacing((m / 2) as nat));
            assert(p * (2 * double_spacing((m / 2) as nat)) == (p * 2) * double_spacing((m / 2) as nat)) by (nonlinear_arith);
            assert((p * 2) * (m / 2) <= p * m) by (nonlinear_arith)
                requires
                    0 < p,
            ;
        }
        m = m / 2;
        p = p * 2;
    }
    proof {
        assert(double_spacing(m as nat) == 1);
        let dm = double_spacing(m as nat);
        assert(double_spacing(b as nat) == p) by (nonlinear_arith)
            requires
                double_spacing(b as nat) == p * dm,
                dm == 1,
        {
        }
        assert(p <= 0x1000) by (nonlinear_arith)
            requires
                p * m <= b,
                m >= 0x10_0000_0000_0000 || p == 1,
                b < 0x1_0000_0000_0000_0000,
                0 < p,
        {
        }
        lemma_fundamental_div_mod(b as int, p as int);
    }
    let q = round_half_even_exec(b as u128, p);
    proof {
        assert(q * p <= b + p) by (nonlinear_arith)
            requires
                q <= (b as int) / (p as int) + 1,
                0 < p,
                (p as int) * ((b as int) / (p as int)) <= b,
        {
        }
    }
    let r = q * p;
    assert(r == nearest_double(b as nat));
    r
}

/// `b` bytes for people, as the local server's directory pages show sizes:
/// `512 B`, `1.5 KB`, `2.0 MB`, `1.0 GB`.
pub fn format_size(bytes: u64) -> (r: String)
    ensures
        r@ == size_text(bytes),
{
    if bytes < 0x400 {
        let n = decimal_string(bytes);
        return concat(n.as_str(), " B");
    }
    let (unit, name): (u128, &str) = if bytes >= 0x4000_0000 {
        (0x4000_0000, "GB")
    } else if bytes >= 0x10_0000 {
        (0x10_0000, "MB")
    } else {
        (0x400, "KB")
    };
    let x = nearest_double_exec(bytes);
    let t = round_half_even_exec(x * 10, unit);
    proof {
        assert(t <= 0x40_0000_0000_0000_0000) by (nonlinear_arith)
            requires
                t <= ((x * 10) as int) / (unit as int) + 1,
                x <= 0x1_0000_0000_0001_0000,
                unit >= 0x400,
        {
        }
    }
    let whole = decimal_string((t / 10) as u64);
    let tenth = decimal_string((t % 10) as u64);
    let a = concat(whole.as_str(), ".");
    let b = concat(a.as_str(), tenth.as_str());
    let c = concat(b.as_str(), " ");
    let r = concat(c.as_str(), name);
    proof {
        reveal_strlit("GB");
        reveal_strlit("MB");
        reveal_strlit("KB");
    }
    r
}

/// A request path without its leading slashes, as the local server reads it.
pub open spec fn local_req_path(raw: Seq<char>) -> Seq<char> {
    strip_prefixes(raw, "/"@)
}

/// The path under the server root that a request names: the request path,
/// percent-decoded, joined to the root.
pub open spec fn local_file_path(root: Seq<char>, raw: Seq<char>) -> Seq<char> {
    join_path(root, percent_decoded_lossy(local_req_path(raw)))
}

/// The first segment of a request path: what precedes its first `/`.
pub open spec fn first_segment(req: Seq<char>) -> Seq<char> {
    split_once_spec(req, '/').0
}

/// Requests whose first segment names a platform switched off are refused.
pub open spec fn access_refused_spec(access: Map<Seq<char>, bool>, req: Seq<char>) -> bool {
    let seg = first_segment(req);
    seg.len() > 0 && access.contains_key(seg) && !access[seg]
}

/// A request as the local server reads it.
#[derive(Debug)]
pub struct LocalRequest {
    /// The request path without its leading slashes (as logged).
    pub req_path: String,
    /// The path it names under the server root.
    pub file_path: String,
}

/// Reads a request path (`/…`) against the server root.
pub fn local_request(server_root: &str, raw_path: &str) -> (r: LocalRequest)
    ensures
        r.req_path@ == local_req_path(raw_path@),
        r.file_path@ == local_file_path(server_root@, raw_path@),
{
    let req_path = trim_start_matches(raw_path, "/");
    let decoded = percent_decode_lossy(req_path.as_str());
    let file_path = join(server_root, decoded.as_str());
    LocalRequest { req_path, file_path }
}

/// Whether the platform switches refuse a request: its first segment names a
/// platform whose access is off.
pub fn access_refused(access: &AccessTable, req_path: &str) -> (r: bool)
    ensures
        r == access_refused_spec(access@, req_path@),
{
    let v = chars_of(req_path);
    let (seg, _) = split_once(v.as_slice(), '/');
    if seg.len() == 0 {
        return false;
    }
    let name = string_from_chars(seg.as_slice());
    match access.get(name.as_str()) {
        Some(on) => !on,
        None => false,
    }
}

/// What the path a request names turned out to be on disk.
#[derive(Debug)]
pub enum EntryKind {
    /// A directory.
    Directory,
    /// A regular file.
    File,
    /// Something else.
    Other,
}

/// How the local server answers a request.
#[derive(Debug)]
pub enum LocalReply {
    /// 404: nothing there.
    NotFound,
    /// 403: outside the served directories.
    Forbidden,
    /// 301 to the directory's path with a trailing slash.
    Redirect { location: String },
    /// 200 with the listing of directory `dir`, shown as `shown_path`.
    Listing { dir: String, shown_path: String },
    /// 200 with the file `path`.
    File { path: String },
}

/// A reply, by its views.
pub ghost enum ReplyView {
    NotFound,
    Forbidden,
    Redirect(Seq<char>),
    Listing(Seq<char>, Seq<char>),
    File(Seq<char>),
}

impl View for LocalReply {
    type V = ReplyView;

    open spec fn view(&self) -> ReplyView {
        match self {
            LocalReply::NotFound => ReplyView::NotFound,
            LocalReply::Forbidden => ReplyView::Forbidden,
            LocalReply::Redirect { location } => ReplyView::Redirect(location@),
            LocalReply::Listing { dir, shown_path } => ReplyView::Listing(dir@, shown_path@),
            LocalReply::File { path } => ReplyView::File(path@),
        }
    }
}

/// The answer to a request with path `req` (leading slashes removed) whose
/// path resolved to `resolved` (its canonical path and what it is), or did
/// not resolve, where `root` and `bundles` are the served directories.
pub open spec fn local_reply_spec(
    req: Seq<char>,
    resolved: Option<(Seq<char>, EntryKind)>,
    root: Seq<char>,
    bundles: Seq<char>,
) -> ReplyView {
    match resolved {
        None => ReplyView::NotFound,
        Some((canon, kind)) => if !path_under(canon, root) && !path_under(canon, bundles) {
            ReplyView::Forbidden
        } else {
            match kind {
                EntryKind::Directory => if !has_suffix(req, "/"@) {
                    ReplyView::Redirect("/"@ + req + "/"@)
                } else {
                    ReplyView::Listing(canon, "/"@ + req)
                },
                EntryKind::File => ReplyView::File(canon),
                EntryKind::Other => ReplyView::NotFound,
            }
        },
    }
}

/// Decides the answer to a request (see `local_reply_spec`).
pub fn local_reply(req_path: &str, resolved: Option<(String, EntryKind)>, root: &str, bundles: &str) -> (r: LocalReply)
    ensures
        r@ == local_reply_spec(
            req_path@,
            match resolved { Some((c, k)) => Some((c@, k)), None => None },
            root@,
            bundles@,
        ),
{
    match resolved {
        None => LocalReply::NotFound,
        Some((canon, kind)) => {
            if !starts_with_path(canon.as_str(), root) && !starts_with_path(canon.as_str(), bundles) {
                return LocalReply::Forbidden;
            }
            match kind {
                EntryKind::Directory => {
                    if !ends_with(req_path, "/") {
                        let a = concat("/", req_path);
                        LocalReply::Redirect { location: concat(a.as_str(), "/") }
                    } else {
                        LocalReply::Listing { dir: canon, shown_path: concat("/", req_path) }
                    }
                },
                EntryKind::File => LocalReply::File { path: canon },
                EntryKind::Other => LocalReply::NotFound,
            }
        },
    }
}

/// The status code of a reply.
pub open spec fn reply_status_spec(r: ReplyView) -> u16 {
    match r {
        ReplyView::NotFound => 404,
        ReplyView::Forbidden => 403,
        ReplyView::Redirect(_) => 301,
        ReplyView::Listing(_, _) => 200,
        ReplyView::File(_) => 200,
    }
}

impl LocalReply {
    /// The status code this reply is logged and sent with.
    pub fn status(&self) -> (r: u16)
        ensures
            r == reply_status_spec(self@),
    {
        match self {
            LocalReply::NotFound => 404,
            LocalReply::Forbidden => 403,
            LocalReply::Redirect { .. } => 301,
            LocalReply::Listing { .. } => 200,
            LocalReply::File { .. } => 200,
        }
    }
}

/// `p` without the separators and `.` parts at its end, down to its first
/// character (what `Components::as_path` trims off an absolute path's end).
pub open spec fn trim_back(p: Seq<char>) -> Seq<char>
    decreases p.len(),
{
    if p.len() <= 1 {
        p
    } else if p.last() == '/' {
        trim_back(p.drop_last())
    } else if p.last() == '.' && p[p.len() - 2] == '/' {
        trim_back(p.drop_last())
    } else {
        p
    }
}

/// `p` without the characters after its last separator.
pub open spec fn drop_part(p: Seq<char>) -> Seq<char>
    decreases p.len(),
{
    if p.len() == 0 || p.last() == '/' {
        p
    } else {
        drop_part(p.drop_last())
    }
}

/// The link to the parent directory of an absolute path shown in a listing:
/// `Path::parent` of it (`/` where it has none), with a trailing separator.
pub open spec fn parent_link_spec(p: Seq<char>) -> Seq<char> {
    if trim_back(p).len() <= 1 {
        "/"@
    } else {
        let q = trim_back(drop_part(trim_back(p)));
        if has_suffix(q, "/"@) {
            q
        } else {
            q + "/"@
        }
    }
}

proof fn lemma_trim_back_step(p: Seq<char>, i: int)
    requires
        1 < i <= p.len(),
        p[i - 1] == '/' || (p[i - 1] == '.' && p[i - 2] == '/'),
    ensures
        trim_back(p.subrange(0, i)) == trim_back(p.subrange(0, i - 1)),
{
    assert(p.subrange(0, i).drop_last() =~= p.subrange(0, i - 1));
}

/// The end of `trim_back(v[..e])`.
fn trim_back_end(v: &[char], e: usize) -> (r: usize)
    requires
        e <= v.len(),
    ensures
        r <= e,
        (e == 0) == (r == 0),
        trim_back(v@.subrange(0, e as int)) == v@.subrange(0, r as int),
{
    let mut i: usize = e;
    while i > 1 && (v[i - 1] == '/' || (v[i - 1] == '.' && v[i - 2] == '/'))
        invariant
            1 <= i <= e || i == e,
            e <= v.len(),
            trim_back(v@.subrange(0, e as int)) == trim_back(v@.subrange(0, i as int)),
        decreases i,
    {
        proof {
            lemma_trim_back_step(v@, i as int);
        }
        i = i - 1;
    }
    proof {
        let s = v@.subrange(0, i as int);
        if s.len() > 1 {
            assert(s.last() == v@[i - 1]);
            assert(s[s.len() - 2] == v@[i - 2]);
        }
    }
    i
}

/// The end of `drop_part(v[..e])`.
fn drop_part_end(v: &[char], e: usize) -> (r: usize)
    requires
        e <= v.len(),
    ensures
        r <= e,
        drop_part(v@.subrange(0, e as int)) == v@.subrange(0, r as int),
{
    let mut i: usize = e;
    while i > 0 && v[i - 1] != '/'
        invariant
            i <= e <= v.len(),
            drop_part(v@.subrange(0, e as int)) == drop_part(v@.subrange(0, i as int)),
        decreases i,
    {
        proof {
            assert(v@.subrange(0, i as int).drop_last() =~= v@.subrange(0, i - 1));
        }
        i = i - 1;
    }
    i
}

/// The link to the parent directory of the absolute path `shown`.
pub fn parent_link(shown: &str) -> (r: String)
    requires
        shown@.len() > 0,
        shown@[0] == '/',
    ensures
        r@ == parent_link_spec(shown@),
{
    let v = chars_of(shown);
    assert(v@.subrange(0, v.len() as int) =~= shown@);
    let e1 = trim_back_end(v.as_slice(), v.len());
    if e1 <= 1 {
        return crate::text::owned("/");
    }
    let e2 = drop_part_end(v.as_slice(), e1);
    proof {
        assert(v@.subrange(0, e2 as int) =~= v@.subrange(0, e1 as int).subrange(0, e2 as int));
    }
    let e3 = trim_back_end(v.as_slice(), e2);
    let q = string_from_chars(&v.as_slice()[0..e3]);
    proof {
        assert(v@.subrange(0, e1 as int) =~= v@.subrange(0, e1 as int));
        assert(q@ == v@.subrange(0, e3 as int));
    }
    if ends_with(q.as_str(), "/") {
        q
    } else {
        concat(q.as_str(), "/")
    }
}

/// An entry of a directory being listed.
#[derive(Debug)]
pub struct ListedEntry {
    /// Its name.
    pub name: String,
    /// Whether it is a directory.
    pub is_dir: bool,
    /// Its size in bytes.
    pub size: u64,
}

impl Duplicate for ListedEntry {
    fn duplicate(&self) -> (r: Self) {
        ListedEntry { name: self.name.clone(), is_dir: self.is_dir, size: self.size }
    }
}

/// The order of a listing: directories first, then by name.
pub open spec fn listing_key(e: ListedEntry) -> Seq<u64> {
    seq![if e.is_dir { 0u64 } else { 1u64 }] + text_key(e.name@)
}

/// The keys that order a listing.
pub open spec fn listing_keys(v: Seq<ListedEntry>) -> Seq<Seq<u64>> {
    v.map_values(|e: ListedEntry| listing_key(e))
}

/// The row linking to the parent of the directory shown as `shown`.
pub open spec fn parent_row(shown: Seq<char>) -> Seq<char> {
    "<tr class=\"dir\"><td><a href=\""@ + parent_link_spec(shown) + "\">📁 ..</a></td><td>-</td><td>-</td></tr>"@
}

/// The row of entry `e` in the listing of the directory shown as `shown`.
pub open spec fn entry_row(shown: Seq<char>, e: ListedEntry) -> Seq<char> {
    let link = if e.is_dir { shown + e.name@ + "/"@ } else { shown + e.name@ };
    "<tr class=\""@ + (if e.is_dir { "dir"@ } else { "file"@ }) + "\"><td><a href=\""@ + link + "\">"@
        + (if e.is_dir { "📁"@ } else { "📄"@ }) + " "@ + e.name@ + "</a></td><td>"@
        + (if e.is_dir { "-"@ } else { size_text(e.size) }) + "</td><td>-</td></tr>"@
}

/// The rows of a listing: the parent's row unless the root is shown, then one
/// row per entry in the order given.
pub open spec fn listing_rows(shown: Seq<char>, sorted: Seq<ListedEntry>) -> Seq<Seq<char>> {
    let head: Seq<Seq<char>> = if shown == "/"@ { Seq::empty() } else { seq![parent_row(shown)] };
    head + sorted.map_values(|e: ListedEntry| entry_row(shown, e))
}

/// The page's text before the title.
pub open spec fn page_head() -> Seq<char> {
    "<!DOCTYPE html>\n<html>\n<head>\n<meta charset=\"utf-8\">\n<title>Index of "@
}

/// The page's text between the title and the heading.
pub open spec fn page_style() -> Seq<char> {
    "</title>\n<style>\n  body { font-family: -apple-system, BlinkMacSystemFont, \"Segoe UI\", Roboto, sans-serif; margin: 20px; background: #1a1a2e; color: #e0e0e0; }\n  h1 { color: #64ffda; font-size: 18px; border-bottom: 1px solid #333; padding-bottom: 10px; }\n  table { border-collapse: collapse; width: 100%; }\n  th { text-align: left; padding: 8px 16px; color: #888; border-bottom: 1px solid #333; }\n  td { padding: 6px 16px; }\n  a { color: #82aaff; text-decoration: none; }\n  a:hover { color: #64ffda; }\n  tr:hover { background: rgba(100,255,218,0.05); }\n  tr.dir a { color: #c3e88d; }\n</style>\n</head>\n<body>\n<h1>Index of "@
}

/// The page's text between the heading and the rows.
pub open spec fn page_table() -> Seq<char> {
    "</h1>\n<table>\n<thead><tr><th>Name</th><th>Size</th><th>Modified</th></tr></thead>\n<tbody>"@
}

/// The page's text after the rows.
pub open spec fn page_tail() -> Seq<char> {
    "</tbody>\n</table>\n</body>\n</html>"@
}

/// The listing page of the directory shown as `shown`, whose entries, in
/// listing order, are `sorted`.
pub open spec fn listing_page(shown: Seq<char>, sorted: Seq<ListedEntry>) -> Seq<char> {
    page_head() + shown + page_style() + shown + page_table() + joined(listing_rows(shown, sorted), "\n"@)
        + page_tail()
}

fn entry_row_of(shown: &str, e: &ListedEntry) -> (r: String)
    ensures
        r@ == entry_row(shown@, *e),
{
    let name = e.name.as_str();
    let link = if e.is_dir {
        let a = concat(shown, name);
        concat(a.as_str(), "/")
    } else {
        concat(shown, name)
    };
    let class = if e.is_dir { "dir" } else { "file" };
    let icon = if e.is_dir { "📁" } else { "📄" };
    let size = if e.is_dir { crate::text::owned("-") } else { format_size(e.size) };
    let s1 = concat("<tr class=\"", class);
    let s2 = concat(s1.as_str(), "\"><td><a href=\"");
    let s3 = concat(s2.as_str(), link.as_str());
    let s4 = concat(s3.as_str(), "\">");
    let s5 = concat(s4.as_str(), icon);
    let s6 = concat(s5.as_str(), " ");
    let s7 = concat(s6.as_str(), name);
    let s8 = concat(s7.as_str(), "</a></td><td>");
    let s9 = concat(s8.as_str(), size.as_str());
    let r = concat(s9.as_str(), "</td><td>-</td></tr>");
    proof {
        let class_t: Seq<char> = if e.is_dir { "dir"@ } else { "file"@ };
        let icon_t: Seq<char> = if e.is_dir { "📁"@ } else { "📄"@ };
        let size_t: Seq<char> = if e.is_dir { "-"@ } else { size_text(e.size) };
        assert(class@ == class_t);
        assert(icon@ == icon_t);
        assert(size@ == size_t);
        assert(r@ =~= entry_row(shown@, *e));
    }
    r
}

/// The listing page of directory entries `entries`, shown as the absolute
/// path `shown`: the entries ordered directories first, then by name, each
/// in a row with its link, icon and size, after a link to the parent unless
/// the root is shown.
pub fn directory_page(shown: &str, entries: &Vec<ListedEntry>) -> (r: String)
    requires
        shown@.len() > 0,
        shown@[0] == '/',
    ensures
        exists|sorted: Seq<ListedEntry>|
            #![trigger arranged(entries@, listing_keys(entries@), sorted)]
            arranged(entries@, listing_keys(entries@), sorted) && r@ == listing_page(shown@, sorted)
                && forall|a: int, b: int|
                #![trigger sorted[a], sorted[b]]
                0 <= a < b < sorted.len() && sorted[b].is_dir ==> sorted[a].is_dir,
{
    let mut keys: Vec<Vec<u64>> = Vec::new();
    let mut i: usize = 0;
    while i < entries.len()
        invariant
            i <= entries@.len(),
            keys@.len() == i,
            forall|j: int| 0 <= j < i ==> (#[trigger] keys@[j])@ == listing_key(entries@[j]),
        decreases entries.len() - i,
    {
        let mut k: Vec<u64> = Vec::new();
        k.push(if entries[i].is_dir { 0 } else { 1 });
        let mut t = text_key_of(entries[i].name.as_str());
        k.append(&mut t);
        assert(k@ =~= listing_key(entries@[i as int]));
        keys.push(k);
        i = i + 1;
    }
    assert(keys_view(keys@) =~= listing_keys(entries@));
    let sorted = sort_by_keys(entries, &keys);
    let ghost rows = listing_rows(shown@, sorted@);
    let root = crate::text::str_eq(shown, "/");
    let mut body = String::new();
    let ghost mut count: int = 0;
    if !root {
        body = crate::text::owned("");
        let link = parent_link(shown);
        let a = concat("<tr class=\"dir\"><td><a href=\"", link.as_str());
        body = concat(a.as_str(), "\">📁 ..</a></td><td>-</td><td>-</td></tr>");
        proof {
            count = 1;
        }
    }
    let ghost head_len: int = if root { 0 } else { 1 };
    proof {
        reveal_strlit("");
        if root {
            assert(body@ =~= joined(rows.subrange(0, 0), "\n"@));
        } else {
            assert(rows.subrange(0, 1) =~= seq![parent_row(shown@)]);
            assert(body@ =~= joined(rows.subrange(0, 1), "\n"@));
        }
    }
    let mut k: usize = 0;
    while k < sorted.len()
        invariant
            rows == listing_rows(shown@, sorted@),
            head_len == (if root { 0int } else { 1int }),
            root == (shown@ == "/"@),
            count == head_len + k,
            k <= sorted@.len(),
            rows.len() == head_len + sorted@.len(),
            body@ == joined(rows.subrange(0, count), "\n"@),
        decreases sorted.len() - k,
    {
        let row = entry_row_of(shown, &sorted[k]);
        proof {
            assert(rows[count] == entry_row(shown@, sorted@[k as int]));
            let next = rows.subrange(0, count + 1);
            assert(next.drop_last() =~= rows.subrange(0, count));
        }
        if k > 0 || !root {
            let b = concat(body.as_str(), "\n");
            body = concat(b.as_str(), row.as_str());
        } else {
            body = row;
            proof {
                assert(rows.subrange(0, 1).len() == 1);
            }
        }
        k = k + 1;
        proof {
            count = count + 1;
        }
    }
    proof {
        assert(rows.subrange(0, count) =~= rows);
    }
    let p1 = concat("<!DOCTYPE html>\n<html>\n<head>\n<meta charset=\"utf-8\">\n<title>Index of ", shown);
    let p2 = concat(p1.as_str(), "</title>\n<style>\n  body { font-family: -apple-system, BlinkMacSystemFont, \"Segoe UI\", Roboto, sans-serif; margin: 20px; background: #1a1a2e; color: #e0e0e0; }\n  h1 { color: #64ffda; font-size: 18px; border-bottom: 1px solid #333; padding-bottom: 10px; }\n  table { border-collapse: collapse; width: 100%; }\n  th { text-align: left; padding: 8px 16px; color: #888; border-bottom: 1px solid #333; }\n  td { padding: 6px 16px; }\n  a { color: #82aaff; text-decoration: none; }\n  a:hover { color: #64ffda; }\n  tr:hover { background: rgba(100,255,218,0.05); }\n  tr.dir a { color: #c3e88d; }\n</style>\n</head>\n<body>\n<h1>Index of ");
    let p3 = concat(p2.as_str(), shown);
    let p4 = concat(p3.as_str(), "</h1>\n<table>\n<thead><tr><th>Name</th><th>Size</th><th>Modified</th></tr></thead>\n<tbody>");
    let p5 = concat(p4.as_str(), body.as_str());
    let r = concat(p5.as_str(), "</tbody>\n</table>\n</body>\n</html>");
    proof {
        assert(r@ =~= listing_page(shown@, sorted@));
        law_directories_listed_first(entries@, sorted@);
    }
    r
}

/// One line of the local server's request log.
#[derive(Debug)]
pub struct LogEntry {
    /// When the request came, as `HH:MM:SS` local time.
    pub timestamp: String,
    /// The status it was answered with.
    pub status: u16,
    /// The request method.
    pub method: String,
    /// The request path without its leading slashes.
    pub path: String,
    /// The project whose server answered.
    pub project_id: String,
}

impl LogEntry {
    /// The log line of a request answered with `status`.
    pub fn new(timestamp: String, status: u16, method: &str, path: &str, project_id: &str) -> (r: Self)
        ensures
            r.timestamp@ == timestamp@,
            r.status == status,
            r.method@ == method@,
            r.path@ == path@,
            r.project_id@ == project_id@,
    {
        LogEntry {
            timestamp,
            status,
            method: crate::text::owned(method),
            path: crate::text::owned(path),
            project_id: crate::text::owned(project_id),
        }
    }
}

/// The body of the local server's 404 page.
pub fn not_found_body() -> (r: String)
    ensures
        r@ == "<html><body><h1>404 - Not Found</h1></body></html>"@,
{
    crate::text::owned("<html><body><h1>404 - Not Found</h1></body></html>")
}

/// The address at which a started local server serves a project:
/// `http://127.0.0.1:{port}/{project_name}/`.
pub fn local_server_url(port: u16, project_name: &str) -> (r: String)
    ensures
        r@ == "http://127.0.0.1:"@ + decimal(port as nat) + "/"@ + project_name@ + "/"@,
{
    let n = decimal_string(port as u64);
    let a = concat("http://127.0.0.1:", n.as_str());
    let b = concat(a.as_str(), "/");
    let c = concat(b.as_str(), project_name);
    concat(c.as_str(), "/")
}

/// The `Content-Type` of a file the local server sends: its guessed MIME type
/// with a UTF-8 charset.
pub fn local_content_type(path: &str) -> (r: String)
    ensures
        r@ == guessed_mime(path@) + "; charset=utf-8"@,
{
    let m = guess_mime(path);
    concat(m.as_str(), "; charset=utf-8")
}

/// Switching a platform's access off refuses every request whose first
/// segment is that platform, and switching it back on lets such requests
/// through the switch again.
pub proof fn law_platform_switch(access: Map<Seq<char>, bool>, platform: Seq<char>, raw_path: Seq<char>)
    requires
        platform.len() > 0,
        first_segment(local_req_path(raw_path)) == platform,
    ensures
        access_refused_spec(access.insert(platform, false), local_req_path(raw_path)),
        !access_refused_spec(access.insert(platform, true), local_req_path(raw_path)),
{
}

/// Of two entries whose listing keys are in order, a directory never follows
/// a file, and of two entries of one kind the names are in order.
proof fn lemma_listing_key_order(x: ListedEntry, y: ListedEntry)
    requires
        lex_lt(listing_key(x), listing_key(y)) || listing_key(x) == listing_key(y),
    ensures
        y.is_dir ==> x.is_dir,
        x.is_dir == y.is_dir ==> !lex_lt(text_key(y.name@), text_key(x.name@)),
{
    let kx = listing_key(x);
    let ky = listing_key(y);
    let tx = text_key(x.name@);
    let ty = text_key(y.name@);
    assert(kx.drop_first() =~= tx);
    assert(ky.drop_first() =~= ty);
    assert(kx[0] == (if x.is_dir { 0u64 } else { 1u64 }));
    assert(ky[0] == (if y.is_dir { 0u64 } else { 1u64 }));
    lemma_lex_total(tx, ty);
    lemma_lex_total(tx, tx);
}

/// A listing shows every directory before every file, whatever their names,
/// and the directories, like the files, in ascending order of name.
pub proof fn law_directories_listed_first(entries: Seq<ListedEntry>, sorted: Seq<ListedEntry>)
    requires
        arranged(entries, listing_keys(entries), sorted),
    ensures
        forall|a: int, b: int|
            #![trigger sorted[a], sorted[b]]
            0 <= a < b < sorted.len() && sorted[b].is_dir ==> sorted[a].is_dir,
        forall|a: int, b: int|
            #![trigger sorted[a], sorted[b]]
            0 <= a < b < sorted.len() && sorted[a].is_dir == sorted[b].is_dir ==> !lex_lt(
                text_key(sorted[b].name@),
                text_key(sorted[a].name@),
            ),
{
    let keys = listing_keys(entries);
    let perm = choose|perm: Seq<usize>|
        #![trigger crate::order::is_stable_order(keys, perm)]
        crate::order::is_stable_order(keys, perm) && sorted.len() == perm.len() && forall|k: int|
            0 <= k < sorted.len() ==> sorted[k] == entries[#[trigger] perm[k] as int];
    assert forall|a: int, b: int|
        #![trigger sorted[a], sorted[b]]
        0 <= a < b < sorted.len() implies (sorted[b].is_dir ==> sorted[a].is_dir)
        && (sorted[a].is_dir == sorted[b].is_dir ==> !lex_lt(
        text_key(sorted[b].name@),
        text_key(sorted[a].name@),
    )) by {
        assert(crate::order::precedes(keys, perm[a] as int, perm[b] as int));
        assert(keys[perm[a] as int] == listing_key(sorted[a]));
        assert(keys[perm[b] as int] == listing_key(sorted[b]));
        lemma_listing_key_order(sorted[a], sorted[b]);
    }
}

} // verus!
