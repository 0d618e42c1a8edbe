//! Routing of public resource requests:
//! `/res/{project_version}/{project_name}/{platform}/{file}` is served from the
//! active bundle of that platform, when its access switch is on.
use vstd::prelude::*;
use crate::remote::config::{AppConfig, ProjectView};
use crate::remote::api::{find_project_by_name, find_version, project_names, version_names};
use crate::remote::storage::{Storage, version_dir_spec};
use crate::lookup::{first_with, position_of};
use crate::paths::{join, join_path};
use crate::text::{chars_have_prefix_at, chars_of, concat, has_prefix, owned, string_from_chars};

verus! {

/// `s` with every leading repetition of `p` removed (`str::trim_start_matches`).
pub open spec fn strip_prefixes(s: Seq<char>, p: Seq<char>) -> Seq<char>
    decreases s.len(),
{
    if p.len() > 0 && has_prefix(s, p) {
        strip_prefixes(s.skip(p.len() as int), p)
    } else {
        s
    }
}

/// `s` with every leading repetition of `p` removed (`str::trim_start_matches`).
pub fn trim_start_matches(s: &str, p: &str) -> (r: String)
    ensures
        r@ == strip_prefixes(s@, p@),
{
    let sv = chars_of(s);
    let pv = chars_of(p);
    let mut i: usize = 0;
    assert(s@.skip(0) =~= s@);
    if pv.len() > 0 {
        while chars_have_prefix_at(sv.as_slice(), i, pv.as_slice())
            invariant
                sv@ == s@,
                pv@ == p@,
                pv.len() > 0,
                i <= sv.len(),
                strip_prefixes(s@, p@) == strip_prefixes(s@.skip(i as int), p@),
            decreases sv.len() - i,
        {
            assert(s@.skip(i as int).subrange(0, p@.len() as int) =~= s@.subrange(
                i as int,
                i + p@.len(),
            ));
            assert(s@.skip(i as int).skip(p@.len() as int) =~= s@.skip(i + p@.len()));
            i = i + pv.len();
        }
        assert(s@.skip(i as int).len() < p@.len() || s@.skip(i as int).subrange(0, p@.len() as int)
            =~= s@.subrange(i as int, i + p@.len()));
    }
    assert(s@.skip(i as int) =~= s@.subrange(i as int, s@.len() as int));
    string_from_chars(&sv.as_slice()[i..sv.len()])
}

/// `s` split at its first `c`: the part before, and the rest after it if `c` occurs.
pub open spec fn split_once_spec(s: Seq<char>, c: char) -> (Seq<char>, Option<Seq<char>>) {
    if s.contains(c) {
        let k = choose|k: int| 0 <= k < s.len() && s[k] == c && forall|j: int| 0 <= j < k ==> s[j] != c;
        (s.subrange(0, k), Some(s.skip(k + 1)))
    } else {
        (s, None)
    }
}

pub fn split_once(s: &[char], c: char) -> (r: (Vec<char>, Option<Vec<char>>))
    ensures
        r.0@ == split_once_spec(s@, c).0,
        match split_once_spec(s@, c).1 {
            Some(rest) => r.1 matches Some(v) && v@ == rest,
            None => r.1 is None,
        },
{
    let mut k: usize = 0;
    while k < s.len()
        invariant
            k <= s.len(),
            forall|j: int| 0 <= j < k ==> s@[j] != c,
        decreases s.len() - k,
    {
        if s[k] == c {
            proof {
                assert(s@.contains(c));
                let w = choose|w: int| 0 <= w < s@.len() && s@[w] == c && forall|j: int| 0 <= j < w ==> s@[j] != c;
                assert(0 <= k < s@.len() && s@[k as int] == c && forall|j: int| 0 <= j < k ==> s@[j] != c);
                if w < k {
                    assert(s@[w] != c);
                } else if w > k {
                    assert(s@[k as int] != c);
                }
                assert(s@.skip(k + 1) =~= s@.subrange(k + 1, s@.len() as int));
            }
            return (vstd::slice::slice_to_vec(&s[0..k]), Some(vstd::slice::slice_to_vec(&s[k + 1..s.len()])));
        }
        k = k + 1;
    }
    proof {
        assert(!s@.contains(c));
        assert(s@.subrange(0, s@.len() as int) =~= s@);
    }
    (vstd::slice::slice_to_vec(s), None)
}

/// The four parts of a decoded resource path as `str::splitn(4, '/')` gives
/// them, an absent part being empty: project version, project name, platform,
/// and the file path (which may hold further separators).
pub open spec fn resource_parts(decoded: Seq<char>) -> (Seq<char>, Seq<char>, Seq<char>, Seq<char>) {
    let (p1, r1) = split_once_spec(decoded, '/');
    match r1 {
        None => (p1, Seq::empty(), Seq::empty(), Seq::empty()),
        Some(rest1) => {
            let (p2, r2) = split_once_spec(rest1, '/');
            match r2 {
                None => (p1, p2, Seq::empty(), Seq::empty()),
                Some(rest2) => {
                    let (p3, r3) = split_once_spec(rest2, '/');
                    match r3 {
                        None => (p1, p2, p3, Seq::empty()),
                        Some(rest3) => (p1, p2, p3, rest3),
                    }
                },
            }
        },
    }
}

/// The four parts of a decoded resource path.
pub fn split_resource_path(decoded: &str) -> (r: (String, String, String, String))
    ensures
        (r.0@, r.1@, r.2@, r.3@) == resource_parts(decoded@),
{
    let v = chars_of(decoded);
    let (p1, r1) = split_once(v.as_slice(), '/');
    let rest1 = match r1 {
        None => return (string_from_chars(p1.as_slice()), String::new(), String::new(), String::new()),
        Some(x) => x,
    };
    let (p2, r2) = split_once(rest1.as_slice(), '/');
    let rest2 = match r2 {
        None => return (
            string_from_chars(p1.as_slice()),
            string_from_chars(p2.as_slice()),
            String::new(),
            String::new(),
        ),
        Some(x) => x,
    };
    let (p3, r3) = split_once(rest2.as_slice(), '/');
    match r3 {
        None => (
            string_from_chars(p1.as_slice()),
            string_from_chars(p2.as_slice()),
            string_from_chars(p3.as_slice()),
            String::new(),
        ),
        Some(rest3) => (
            string_from_chars(p1.as_slice()),
            string_from_chars(p2.as_slice()),
            string_from_chars(p3.as_slice()),
            string_from_chars(rest3.as_slice()),
        ),
    }
}

/// The text that percent-decoding `raw` and reading the bytes as UTF-8, with
/// invalid sequences replaced, gives.
pub uninterp spec fn percent_decoded_lossy(raw: Seq<char>) -> Seq<char>;

/// `percent_encoding::percent_decode_str(raw).decode_utf8_lossy()`: its
/// result is named; where `raw` holds no `%`, nothing is decoded and the text
/// comes back as it was, as the crate documents.
#[verifier::external_body]
pub(crate) fn percent_decode_lossy(raw: &str) -> (r: String)
    ensures
        r@ == percent_decoded_lossy(raw@),
        !raw@.contains('%') ==> r@ == raw@,
{
    percent_encoding::percent_decode_str(raw).decode_utf8_lossy().to_string()
}

/// The part of a request path after the `/res/` prefix, as logged.
pub fn resource_raw_path(uri_path: &str) -> (r: String)
    ensures
        r@ == strip_prefixes(uri_path@, "/res/"@),
{
    trim_start_matches(uri_path, "/res/")
}

/// The decoded resource path of a request path.
pub fn resource_path(uri_path: &str) -> (r: String)
    ensures
        r@ == percent_decoded_lossy(strip_prefixes(uri_path@, "/res/"@)),
{
    let raw = resource_raw_path(uri_path);
    percent_decode_lossy(raw.as_str())
}

/// How a resource request is answered.
#[derive(Debug)]
pub enum ResourceDecision {
    /// 404, with the project's identifier where the project was found.
    NotFound { project_id: String, message: String },
    /// 403: the platform's access switch is off.
    Forbidden { project_id: String },
    /// Serve the file at `file` (the caller still checks that it lies under
    /// the resources directory and is a file).
    Serve { project_id: String, file: String },
}

/// How a resource request is answered, by its view.
pub ghost enum DecisionView {
    NotFound(Seq<char>, Seq<char>),
    Forbidden(Seq<char>),
    Serve(Seq<char>, Seq<char>),
}

/// A decision, by its view.
pub open spec fn decision_view(d: ResourceDecision) -> DecisionView {
    match d {
        ResourceDecision::NotFound { project_id, message } => DecisionView::NotFound(
            project_id@,
            message@,
        ),
        ResourceDecision::Forbidden { project_id } => DecisionView::Forbidden(project_id@),
        ResourceDecision::Serve { project_id, file } => DecisionView::Serve(project_id@, file@),
    }
}

/// How the request for the decoded resource path `path` is answered, given
/// the projects `ps` and the resources directory `root`: 404 for an unknown
/// project or project version, for a platform the project does not declare
/// or that has no settings, and where no bundle version is active; 403 where
/// the platform's access is off; otherwise the file in the active bundle
/// version's directory.
pub open spec fn resolve_spec(ps: Seq<ProjectView>, root: Seq<char>, path: Seq<char>) -> DecisionView {
    let (pver, pname, plat, file) = resource_parts(path);
    if pver.len() == 0 || pname.len() == 0 || plat.len() == 0 || file.len() == 0 {
        DecisionView::NotFound(Seq::empty(), "Not found"@)
    } else {
        match first_with(project_names(ps), pname) {
            None => DecisionView::NotFound(Seq::empty(), "Not found"@),
            Some(i) => {
                let p = ps[i];
                match first_with(version_names(p.project_versions), pver) {
                    None => DecisionView::NotFound(p.id, "Not found"@),
                    Some(j) => {
                        let table = p.project_versions[j].platform_settings;
                        if !p.platforms.contains(plat) || !table.contains_key(plat) {
                            DecisionView::NotFound(p.id, "Not found"@)
                        } else if !table[plat].access_enabled {
                            DecisionView::Forbidden(p.id)
                        } else {
                            match table[plat].active_bundle {
                                None => DecisionView::NotFound(p.id, "No active bundle"@),
                                Some(b) => if b.len() == 0 {
                                    DecisionView::NotFound(p.id, "No active bundle"@)
                                } else {
                                    match version_dir_spec(root, pname, pver, plat, b) {
                                        Err(_) => DecisionView::NotFound(p.id, "Not found"@),
                                        Ok(d) => DecisionView::Serve(p.id, join_path(d, file)),
                                    }
                                },
                            }
                        }
                    },
                }
            },
        }
    }
}

fn not_found(project_id: &str) -> (r: ResourceDecision)
    ensures
        decision_view(r) == DecisionView::NotFound(project_id@, "Not found"@),
{
    ResourceDecision::NotFound { project_id: owned(project_id), message: owned("Not found") }
}

/// How the request for the decoded resource path `path` is answered.
pub fn resolve_resource(config: &AppConfig, storage: &Storage, path: &str) -> (r: ResourceDecision)
    ensures
        decision_view(r) == resolve_spec(config@, storage.root(), path@),
{
    proof {
        reveal_strlit("");
        assert(""@ =~= Seq::<char>::empty());
    }
    let (pver, pname, plat, file) = split_resource_path(path);
    if pver.as_str().unicode_len() == 0 || pname.as_str().unicode_len() == 0
        || plat.as_str().unicode_len() == 0 || file.as_str().unicode_len() == 0 {
        return not_found("");
    }
    let i = match find_project_by_name(&config.projects, pname.as_str()) {
        None => return not_found(""),
        Some(i) => i,
    };
    let p = &config.projects[i];
    assert(config@[i as int] == p@);
    let j = match find_version(&p.project_versions, pver.as_str()) {
        None => return not_found(p.id.as_str()),
        Some(j) => j,
    };
    assert(p@.project_versions[j as int] == p.project_versions@[j as int]@);
    if position_of(&p.platforms, plat.as_str()).is_none() {
        proof {
            assert(p.platforms@.map_values(|s: String| s@) =~= p@.platforms);
        }
        return not_found(p.id.as_str());
    }
    proof {
        assert(p.platforms@.map_values(|s: String| s@) =~= p@.platforms);
    }
    let settings = match p.project_versions[j].platform_settings.get(plat.as_str()) {
        None => return not_found(p.id.as_str()),
        Some(s) => s,
    };
    if !settings.access_enabled {
        return ResourceDecision::Forbidden { project_id: p.id.clone() };
    }
    let bundle = match &settings.active_bundle {
        None => return ResourceDecision::NotFound {
            project_id: p.id.clone(),
            message: owned("No active bundle"),
        },
        Some(b) => b,
    };
    if bundle.as_str().unicode_len() == 0 {
        return ResourceDecision::NotFound {
            project_id: p.id.clone(),
            message: owned("No active bundle"),
        };
    }
    match storage.version_dir(pname.as_str(), pver.as_str(), plat.as_str(), bundle.as_str()) {
        Err(_) => not_found(p.id.as_str()),
        Ok(d) => ResourceDecision::Serve { project_id: p.id.clone(), file: join(d.as_str(), file.as_str()) },
    }
}

/// The last component of `path`, ignoring trailing separators
/// (`Path::file_name` for a path without `.` or `..` components), if any.
pub open spec fn file_name_spec(path: Seq<char>) -> Option<Seq<char>>
    decreases path.len(),
{
    if path.len() > 0 && path.last() == '/' {
        file_name_spec(path.drop_last())
    } else {
        let name = if path.contains('/') {
            let k = choose|k: int|
                0 <= k < path.len() && path[k] == '/' && forall|j: int| k < j < path.len() ==> path[j] != '/';
            path.skip(k + 1)
        } else {
            path
        };
        if name.len() == 0 || name == seq!['.', '.'] {
            None
        } else {
            Some(name)
        }
    }
}

/// The extension of a file name: the part after its last `.`, unless there is
/// no `.` or the only one begins the name (`Path::extension`).
pub open spec fn name_extension(name: Seq<char>) -> Option<Seq<char>> {
    if name == seq!['.', '.'] || !name.contains('.') {
        None
    } else {
        let k = choose|k: int|
            0 <= k < name.len() && name[k] == '.' && forall|j: int| k < j < name.len() ==> name[j] != '.';
        if k == 0 {
            None
        } else {
            Some(name.skip(k + 1))
        }
    }
}

/// The extension of the last component of `path`.
pub open spec fn path_extension(path: Seq<char>) -> Option<Seq<char>> {
    match file_name_spec(path) {
        Some(n) => name_extension(n),
        None => None,
    }
}

/// The position of the last `c` in `s`.
fn last_index_of(s: &[char], c: char) -> (r: Option<usize>)
    ensures
        match r {
            Some(k) => k < s@.len() && s@[k as int] == c && forall|j: int| k < j < s@.len() ==> s@[j] != c,
            None => !s@.contains(c),
        },
{
    let mut k: usize = s.len();
    while k > 0
        invariant
            k <= s.len(),
            forall|j: int| k <= j < s@.len() ==> s@[j] != c,
        decreases k,
    {
        if s[k - 1] == c {
            return Some(k - 1);
        }
        k = k - 1;
    }
    proof {
        if s@.contains(c) {
            let j = choose|j: int| 0 <= j < s@.len() && s@[j] == c;
            assert(s@[j] != c);
        }
    }
    None
}

proof fn lemma_last_index(s: Seq<char>, c: char, k: int)
    requires
        0 <= k < s.len(),
        s[k] == c,
        forall|j: int| k < j < s.len() ==> s[j] != c,
    ensures
        (choose|w: int| 0 <= w < s.len() && s[w] == c && forall|j: int| w < j < s.len() ==> s[j] != c)
            == k,
{
    assert(s.contains(c));
    let w = choose|w: int| 0 <= w < s.len() && s[w] == c && forall|j: int| w < j < s.len() ==> s[j] != c;
    assert(0 <= w < s.len() && s[w] == c && forall|j: int| w < j < s.len() ==> s[j] != c);
    if w < k {
        assert(s[k] != c);
    } else if w > k {
        assert(s[w] != c);
    }
}

/// The extension of the last component of `path`.
pub fn extension_of(path: &str) -> (r: Option<String>)
    ensures
        crate::remote::config::opt_view(r) == path_extension(path@),
{
    let v = chars_of(path);
    let mut end: usize = v.len();
    assert(path@.subrange(0, end as int) =~= path@);
    while end > 0 && v[end - 1] == '/'
        invariant
            v@ == path@,
            end <= v.len(),
            file_name_spec(path@) == file_name_spec(path@.subrange(0, end as int)),
        decreases end,
    {
        assert(path@.subrange(0, end - 1) =~= path@.subrange(0, end as int).drop_last());
        end = end - 1;
    }
    let ghost trimmed = path@.subrange(0, end as int);
    assert(trimmed.len() == 0 || trimmed.last() != '/');
    let body = &v.as_slice()[0..end];
    assert(body@ == trimmed);
    let start = match last_index_of(body, '/') {
        Some(k) => {
            proof {
                lemma_last_index(trimmed, '/', k as int);
            }
            k + 1
        },
        None => 0,
    };
    let name = &body[start..end];
    assert(name@ =~= if trimmed.contains('/') {
        trimmed.skip(start as int)
    } else {
        trimmed
    });
    let dots = ['.', '.'];
    assert(dots@ =~= seq!['.', '.']);
    if name.len() == 0 || crate::text::chars_eq(name, dots.as_slice()) {
        return None;
    }
    let k = match last_index_of(name, '.') {
        None => return None,
        Some(k) => k,
    };
    proof {
        lemma_last_index(name@, '.', k as int);
    }
    if k == 0 {
        return None;
    }
    assert(name@.skip(k + 1) =~= name@.subrange(k + 1, name@.len() as int));
    Some(string_from_chars(&name[k + 1..name.len()]))
}

/// `s` with ASCII capitals made small.
pub open spec fn ascii_lower_spec(s: Seq<char>) -> Seq<char> {
    s.map_values(|c: char| if 'A' <= c && c <= 'Z' { ((c as u8) + 32) as char } else { c })
}

/// `s` with ASCII capitals made small.
pub fn ascii_lower(s: &str) -> (r: String)
    ensures
        r@ == ascii_lower_spec(s@),
{
    let v = chars_of(s);
    let mut out: Vec<char> = Vec::new();
    let mut i: usize = 0;
    while i < v.len()
        invariant
            v@ == s@,
            i <= v.len(),
            out@.len() == i,
            forall|j: int| 0 <= j < i ==> out@[j] == (if 'A' <= s@[j] && s@[j] <= 'Z' {
                ((s@[j] as u8) + 32) as char
            } else {
                s@[j]
            }),
        decreases v.len() - i,
    {
        let c = v[i];
        if 'A' <= c && c <= 'Z' {
            out.push(((c as u8) + 32) as char);
        } else {
            out.push(c);
        }
        i = i + 1;
    }
    assert(out@ =~= ascii_lower_spec(s@));
    string_from_chars(out.as_slice())
}

/// The MIME type that `mime_guess::from_path(path).first_or_octet_stream()`
/// gives, as text.
pub uninterp spec fn guessed_mime(path: Seq<char>) -> Seq<char>;

/// `mime_guess::from_path(path).first_or_octet_stream().to_string()`.
#[verifier::external_body]
pub(crate) fn guess_mime(path: &str) -> (r: String)
    ensures
        r@ == guessed_mime(path@),
{
    mime_guess::from_path(path).first_or_octet_stream().to_string()
}

/// The MIME type a resource file is served with: `.version`, `.hash` and
/// `.report` files as plain text, `.json` as JSON, any other by its extension.
/// The extension is compared after lowering ASCII capitals; for these four
/// targets that is the same as comparing after Unicode lowering, since no
/// other character lowers to a single one of their letters.
pub open spec fn resource_mime_spec(path: Seq<char>) -> Seq<char> {
    let ext = match path_extension(path) {
        Some(e) => ascii_lower_spec(e),
        None => Seq::empty(),
    };
    if ext == "version"@ || ext == "hash"@ || ext == "report"@ {
        "text/plain"@
    } else if ext == "json"@ {
        "application/json"@
    } else {
        guessed_mime(path)
    }
}

/// The `Content-Type` of a served resource file: its MIME type with a UTF-8
/// charset.
pub fn resource_content_type(path: &str) -> (r: String)
    ensures
        r@ == resource_mime_spec(path@) + "; charset=utf-8"@,
{
    proof {
        reveal_strlit("");
        assert(""@ =~= Seq::<char>::empty());
    }
    let ext = match extension_of(path) {
        Some(e) => ascii_lower(e.as_str()),
        None => String::new(),
    };
    let mime = if crate::text::str_eq(ext.as_str(), "version") || crate::text::str_eq(ext.as_str(), "hash")
        || crate::text::str_eq(ext.as_str(), "report") {
        owned("text/plain")
    } else if crate::text::str_eq(ext.as_str(), "json") {
        owned("application/json")
    } else {
        guess_mime(path)
    };
    concat(mime.as_str(), "; charset=utf-8")
}

/// The path of an embedded admin page asset: the request path without its
/// leading separators.
pub fn spa_asset_path(uri_path: &str) -> (r: String)
    ensures
        r@ == strip_prefixes(uri_path@, "/"@),
{
    trim_start_matches(uri_path, "/")
}

/// The `Content-Type` of an embedded admin page asset: its guessed MIME type.
pub fn asset_content_type(path: &str) -> (r: String)
    ensures
        r@ == guessed_mime(path@),
{
    guess_mime(path)
}

} // verus!
