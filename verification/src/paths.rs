//! Slash-separated paths as the servers lay them out on disk, and the check
//! that keeps a name given by a client to one path component.
use vstd::prelude::*;
use crate::text::{
    chars_contain, chars_eq, chars_of, concat, contains_char, has_infix, owned, push_char,
    split_chars, split_parts,
};

verus! {

/// `base` with `comp` adjoined, as `PathBuf::join` does on Unix: an absolute
/// `comp` replaces `base`; otherwise a separator is put between the two unless
/// `base` is empty or already ends with one.
pub open spec fn join_path(base: Seq<char>, comp: Seq<char>) -> Seq<char> {
    if comp.len() > 0 && comp[0] == '/' {
        comp
    } else if base.len() > 0 && base.last() != '/' {
        base + seq!['/'] + comp
    } else {
        base + comp
    }
}

/// A name that may stand as one component of a storage path: not empty, no
/// separator of either kind, and no `..` anywhere in it.
pub open spec fn valid_component(s: Seq<char>) -> bool {
    &&& s.len() > 0
    &&& !s.contains('/')
    &&& !s.contains('\\')
    &&& !has_infix(s, seq!['.', '.'])
}

/// The message given for a name refused as a path component.
pub open spec fn invalid_component_message(s: Seq<char>) -> Seq<char> {
    "Invalid path component: "@ + s
}

/// A `Result` of strings, taken by the strings' views.
pub open spec fn result_view(r: Result<String, String>) -> Result<Seq<char>, Seq<char>> {
    match r {
        Ok(s) => Ok(s@),
        Err(e) => Err(e@),
    }
}

/// `dir` extended by the component `comp`, or the error of the first refused name.
pub open spec fn extend_dir(dir: Result<Seq<char>, Seq<char>>, comp: Seq<char>) -> Result<
    Seq<char>,
    Seq<char>,
> {
    match dir {
        Err(e) => Err(e),
        Ok(d) => if valid_component(comp) {
            Ok(join_path(d, comp))
        } else {
            Err(invalid_component_message(comp))
        },
    }
}

/// Adjoins `comp` to `base` (`PathBuf::join` on Unix).
pub fn join(base: &str, comp: &str) -> (r: String)
    ensures
        r@ == join_path(base@, comp@),
{
    let bv = chars_of(base);
    let cv = chars_of(comp);
    if cv.len() > 0 && cv[0] == '/' {
        return owned(comp);
    }
    let mut r = owned(base);
    if bv.len() > 0 && bv[bv.len() - 1] != '/' {
        push_char(&mut r, '/');
    }
    r.append(comp);
    r
}

/// Accepts `s` as one path component, or refuses it with a message that names it.
pub fn sanitize_path_component(s: &str) -> (r: Result<&str, String>)
    ensures
        valid_component(s@) ==> r == Ok::<&str, String>(s),
        !valid_component(s@) ==> (r matches Err(m) && m@ == invalid_component_message(s@)),
{
    let sv = chars_of(s);
    let dots = ['.', '.'];
    assert(dots@ =~= seq!['.', '.']);
    if sv.len() == 0 || contains_char(s, '/') || contains_char(s, '\\') || chars_contain(
        sv.as_slice(),
        dots.as_slice(),
    ) {
        return Err(concat("Invalid path component: ", s));
    }
    Ok(s)
}

/// Extends a directory by one client-given component, refusing the component
/// as `sanitize_path_component` does.
pub fn extend(dir: String, comp: &str) -> (r: Result<String, String>)
    ensures
        result_view(r) == extend_dir(Ok(dir@), comp@),
{
    match sanitize_path_component(comp) {
        Ok(c) => Ok(join(dir.as_str(), c)),
        Err(e) => Err(e),
    }
}

/// `p` starts at the root.
pub open spec fn is_absolute(p: Seq<char>) -> bool {
    p.len() > 0 && p[0] == '/'
}

/// A part that stands as a component: not empty and not `.`.
pub open spec fn is_named_part(s: Seq<char>) -> bool {
    s.len() > 0 && s != seq!['.']
}

/// The components of `p` as `Path::components` yields them on Unix, each by
/// its text: `/` for the root, `.` for a relative path's leading `.`, then
/// every part between separators that is neither empty nor `.`.
pub open spec fn path_components(p: Seq<char>) -> Seq<Seq<char>> {
    let root: Seq<Seq<char>> = if is_absolute(p) { seq![seq!['/']] } else { Seq::empty() };
    let cur: Seq<Seq<char>> = if !is_absolute(p) && p.len() > 0 && p[0] == '.' && (p.len() == 1 || p[1] == '/') {
        seq![seq!['.']]
    } else {
        Seq::empty()
    };
    root + cur + split_parts(p, '/').filter(|s: Seq<char>| is_named_part(s))
}

/// `p` lies under `base`, as `Path::starts_with` decides: the components of
/// `base` begin the components of `p`.
pub open spec fn path_under(p: Seq<char>, base: Seq<char>) -> bool {
    let a = path_components(p);
    let b = path_components(base);
    b.len() <= a.len() && a.subrange(0, b.len() as int) == b
}

/// The components of `p` (`Path::components` on Unix).
pub fn components(p: &str) -> (r: Vec<Vec<char>>)
    ensures
        r@.map_values(|v: Vec<char>| v@) == path_components(p@),
{
    let v = chars_of(p);
    let parts = split_chars(v.as_slice(), '/');
    let ghost named = |s: Seq<char>| is_named_part(s);
    let mut out: Vec<Vec<char>> = Vec::new();
    let absolute = v.len() > 0 && v[0] == '/';
    if absolute {
        let mut r: Vec<char> = Vec::new();
        r.push('/');
        out.push(r);
    } else if v.len() > 0 && v[0] == '.' && (v.len() == 1 || v[1] == '/') {
        let mut c: Vec<char> = Vec::new();
        c.push('.');
        out.push(c);
    }
    let ghost head = out@.map_values(|x: Vec<char>| x@);
    proof {
        let root: Seq<Seq<char>> = if is_absolute(p@) { seq![seq!['/']] } else { Seq::empty() };
        let cur: Seq<Seq<char>> = if !is_absolute(p@) && p@.len() > 0 && p@[0] == '.' && (p@.len() == 1 || p@[1] == '/') {
            seq![seq!['.']]
        } else {
            Seq::empty()
        };
        assert(head =~= root + cur);
    }
    let ghost sp = split_parts(p@, '/');
    let mut i: usize = 0;
    while i < parts.len()
        invariant
            named == (|s: Seq<char>| is_named_part(s)),
            sp == parts@.map_values(|x: Vec<char>| x@),
            i <= parts@.len(),
            out@.map_values(|x: Vec<char>| x@) == head + sp.subrange(0, i as int).filter(named),
        decreases parts.len() - i,
    {
        proof {
            assert(sp.subrange(0, i + 1) =~= sp.subrange(0, i as int).push(sp[i as int]));
            sp.subrange(0, i as int).lemma_filter_push(sp[i as int], named);
        }
        let part = &parts[i];
        let keep = part.len() > 0 && !(part.len() == 1 && part[0] == '.');
        proof {
            assert(sp[i as int] == part@);
            if part@.len() == 1 && part@[0] == '.' {
                assert(part@ =~= seq!['.']);
            }
            if part@ == seq!['.'] {
                assert(part@.len() == 1 && part@[0] == '.');
            }
        }
        if keep {
            let ghost before = out@;
            out.push(part.clone());
            proof {
                assert(out@.map_values(|x: Vec<char>| x@) =~= before.map_values(|x: Vec<char>| x@).push(part@));
            }
        }
        i = i + 1;
    }
    proof {
        assert(sp.subrange(0, parts@.len() as int) =~= sp);
    }
    out
}

/// Whether `p` lies under `base` (`Path::starts_with` on Unix).
pub fn starts_with_path(p: &str, base: &str) -> (r: bool)
    ensures
        r == path_under(p@, base@),
{
    let a = components(p);
    let b = components(base);
    let ghost av = a@.map_values(|x: Vec<char>| x@);
    let ghost bv = b@.map_values(|x: Vec<char>| x@);
    assert(av == path_components(p@));
    assert(bv == path_components(base@));
    assert(av.len() == a@.len() && bv.len() == b@.len());
    if b.len() > a.len() {
        return false;
    }
    let mut i: usize = 0;
    while i < b.len()
        invariant
            av == a@.map_values(|x: Vec<char>| x@),
            bv == b@.map_values(|x: Vec<char>| x@),
            av == path_components(p@),
            bv == path_components(base@),
            b.len() <= a.len(),
            i <= b.len(),
            forall|k: int| 0 <= k < i ==> av[k] == bv[k],
        decreases b.len() - i,
    {
        assert(av[i as int] == a@[i as int]@ && bv[i as int] == b@[i as int]@);
        if !chars_eq(a[i].as_slice(), b[i].as_slice()) {
            assert(av.subrange(0, bv.len() as int)[i as int] != bv[i as int]);
            return false;
        }
        i = i + 1;
    }
    assert(av.subrange(0, bv.len() as int) =~= bv);
    true
}

proof fn lemma_split_after_separator(s: Seq<char>, c: Seq<char>)
    requires
        !c.contains('/'),
    ensures
        split_parts(s + seq!['/'] + c, '/') == split_parts(s, '/').push(c),
    decreases c.len(),
{
    if c.len() == 0 {
        assert(c =~= Seq::<char>::empty());
        assert(s + seq!['/'] + c =~= s.push('/'));
        assert(s.push('/').drop_last() =~= s);
    } else {
        let c0 = c.drop_last();
        assert(!c0.contains('/')) by {
            if c0.contains('/') {
                let k = choose|k: int| 0 <= k < c0.len() && c0[k] == '/';
                assert(c[k] == '/');
            }
        }
        lemma_split_after_separator(s, c0);
        assert((s + seq!['/'] + c).drop_last() =~= s + seq!['/'] + c0);
        assert(c.last() != '/') by {
            assert(c.contains(c[c.len() - 1]));
        }
        assert((s + seq!['/'] + c).last() == c.last());
        let sp = split_parts(s, '/');
        assert(c0.push(c.last()) =~= c);
        assert(sp.push(c0).update(sp.len() as int, c0.push(c.last())) =~= sp.push(c));
    }
}

/// A name that `Path::components` yields as one component of its own.
pub open spec fn is_single_component(c: Seq<char>) -> bool {
    c.len() > 0 && !c.contains('/') && c != seq!['.']
}

proof fn lemma_split_without_separator(c: Seq<char>)
    requires
        !c.contains('/'),
    ensures
        split_parts(c, '/') == seq![c],
    decreases c.len(),
{
    if c.len() > 0 {
        let c0 = c.drop_last();
        assert(!c0.contains('/')) by {
            if c0.contains('/') {
                let k = choose|k: int| 0 <= k < c0.len() && c0[k] == '/';
                assert(c[k] == '/');
            }
        }
        lemma_split_without_separator(c0);
        assert(c.contains(c.last()));
        assert(c0.push(c.last()) =~= c);
        assert(seq![c0].update(0, c0.push(c.last())) =~= seq![c]);
    } else {
        assert(c =~= Seq::<char>::empty());
    }
}

/// Joining a single component to a path adds that component to the path's
/// components.
pub proof fn lemma_components_join(d: Seq<char>, c: Seq<char>)
    requires
        is_single_component(c),
    ensures
        path_components(join_path(d, c)) == path_components(d).push(c),
{
    let named = |s: Seq<char>| is_named_part(s);
    assert(c[0] != '/') by {
        assert(c.contains(c[0]));
    }
    let j = join_path(d, c);
    if d.len() == 0 {
        assert(j =~= c);
        lemma_split_without_separator(c);
        assert(seq![c].filter(named) =~= seq![c]) by {
            Seq::<Seq<char>>::empty().lemma_filter_push(c, named);
            assert(Seq::<Seq<char>>::empty().push(c) =~= seq![c]);
            assert(Seq::<Seq<char>>::empty().filter(named) =~= Seq::<Seq<char>>::empty());
        }
        if c[0] == '.' && c.len() > 1 {
            assert(c.contains(c[1]));
        }
        if c.len() == 1 && c[0] == '.' {
            assert(c =~= seq!['.']);
        }
        assert(path_components(d) =~= Seq::<Seq<char>>::empty()) by {
            assert(split_parts(d, '/') == seq![Seq::<char>::empty()]);
            Seq::<Seq<char>>::empty().lemma_filter_push(Seq::<char>::empty(), named);
            assert(Seq::<Seq<char>>::empty().push(Seq::<char>::empty()) =~= seq![Seq::<char>::empty()]);
            assert(Seq::<Seq<char>>::empty().filter(named) =~= Seq::<Seq<char>>::empty());
        }
    } else if d.last() != '/' {
        assert(j == d + seq!['/'] + c);
        lemma_split_after_separator(d, c);
        split_parts(d, '/').lemma_filter_push(c, named);
        assert(j[0] == d[0]);
        assert(j.len() > 1 && j[1] == (if d.len() > 1 { d[1] } else { '/' }));
    } else {
        let s = d.drop_last();
        assert(j =~= s + seq!['/'] + c);
        lemma_split_after_separator(s, c);
        assert(d =~= s.push('/'));
        assert(split_parts(d, '/') == split_parts(s, '/').push(Seq::empty()));
        split_parts(s, '/').lemma_filter_push(Seq::<char>::empty(), named);
        split_parts(s, '/').lemma_filter_push(c, named);
        assert(j[0] == d[0]);
        if d.len() > 1 {
            assert(j[1] == d[1]);
        } else {
            assert(d[0] == '/');
        }
    }
    assert(path_components(j) =~= path_components(d).push(c));
}

} // verus!
