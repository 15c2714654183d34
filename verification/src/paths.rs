//! Turning user-supplied paths into usable ones: `..` is resolved against the
//! preceding directory, the home directory replaces a leading `~`, and relative
//! paths are taken from the current directory.
use vstd::prelude::*;
use crate::text::{chars_of, split_on, split_str, string_of, views, extend_chars};

verus! {

/// One component of a path.
pub enum Comp {
    Root,
    Cur,
    Parent,
    Normal(Seq<char>),
}

/// Whether a piece of a path is `.`.
pub open spec fn is_dot(p: Seq<char>) -> bool {
    p.len() == 1 && p[0] == '.'
}

/// Whether a piece of a path is `..`.
pub open spec fn is_dot_dot(p: Seq<char>) -> bool {
    p.len() == 2 && p[0] == '.' && p[1] == '.'
}

/// The component a `/`-separated piece stands for; empty pieces and `.` pieces
/// (except a leading `.`) stand for none.
pub open spec fn piece_comp(piece: Seq<char>, first: bool) -> Option<Comp> {
    if piece.len() == 0 {
        None
    } else if is_dot(piece) {
        if first { Some(Comp::Cur) } else { None }
    } else if is_dot_dot(piece) {
        Some(Comp::Parent)
    } else {
        Some(Comp::Normal(piece))
    }
}

/// The component, if any, as a sequence of at most one.
pub open spec fn opt_seq(o: Option<Comp>) -> Seq<Comp> {
    match o {
        Some(c) => seq![c],
        None => Seq::<Comp>::empty(),
    }
}

/// The components of the pieces of a path between slashes.
pub open spec fn comps_from(ps: Seq<Seq<char>>) -> Seq<Comp>
    decreases ps.len(),
{
    if ps.len() == 0 {
        Seq::<Comp>::empty()
    } else {
        comps_from(ps.drop_last()) + opt_seq(piece_comp(ps.last(), ps.len() == 1))
    }
}

/// Whether the path starts at the root.
pub open spec fn is_absolute(s: Seq<char>) -> bool {
    s.len() > 0 && s[0] == '/'
}

/// The components of a path, as a path library reads them.
pub open spec fn comps_of(s: Seq<char>) -> Seq<Comp> {
    if is_absolute(s) {
        seq![Comp::Root] + comps_from(split_on(s, '/'))
    } else {
        comps_from(split_on(s, '/'))
    }
}

/// Adding one component while resolving: `..` removes a preceding normal component,
/// and is kept when there is none.
pub open spec fn step(acc: Seq<Comp>, c: Comp) -> Seq<Comp> {
    if c is Parent {
        if acc.len() > 0 && acc.last() is Normal {
            acc.drop_last()
        } else {
            acc.push(Comp::Parent)
        }
    } else {
        acc.push(c)
    }
}

/// The components with each `..` cancelling the normal component before it.
pub open spec fn resolve(cs: Seq<Comp>) -> Seq<Comp>
    decreases cs.len(),
{
    if cs.len() == 0 {
        Seq::<Comp>::empty()
    } else {
        step(resolve(cs.drop_last()), cs.last())
    }
}

/// The text of a component.
pub open spec fn comp_text(c: Comp) -> Seq<char> {
    match c {
        Comp::Root => seq!['/'],
        Comp::Cur => seq!['.'],
        Comp::Parent => seq!['.', '.'],
        Comp::Normal(x) => x,
    }
}

/// Appending a component to a path text, with a separator where one is needed.
pub open spec fn render_push(buf: Seq<char>, c: Comp) -> Seq<char> {
    if c is Root {
        seq!['/']
    } else if buf.len() > 0 && buf.last() != '/' {
        buf.push('/') + comp_text(c)
    } else {
        buf + comp_text(c)
    }
}

/// The path the components write out.
pub open spec fn render(cs: Seq<Comp>) -> Seq<char>
    decreases cs.len(),
{
    if cs.len() == 0 {
        Seq::<char>::empty()
    } else {
        render_push(render(cs.drop_last()), cs.last())
    }
}

/// The path with a trailing slash.
pub open spec fn finish_slash(r: Seq<char>) -> Seq<char> {
    if r.len() > 0 && r.last() != '/' {
        r.push('/')
    } else {
        r
    }
}

/// The normalized form of a path: its components with `..` resolved, written out
/// again, keeping a trailing slash.
pub open spec fn spec_normalize(s: Seq<char>) -> Seq<char> {
    let r = render(resolve(comps_of(s)));
    if s.len() > 0 && s.last() == '/' {
        finish_slash(r)
    } else {
        r
    }
}

/// A path component held by the program.
pub enum PathComponent {
    RootDir,
    CurDir,
    ParentDir,
    Normal(Vec<char>),
}

impl View for PathComponent {
    type V = Comp;

    open spec fn view(&self) -> Comp {
        match self {
            PathComponent::RootDir => Comp::Root,
            PathComponent::CurDir => Comp::Cur,
            PathComponent::ParentDir => Comp::Parent,
            PathComponent::Normal(v) => Comp::Normal(v@),
        }
    }
}

/// The models of path components.
pub open spec fn comp_views(v: Seq<PathComponent>) -> Seq<Comp> {
    v.map_values(|c: PathComponent| c@)
}

fn piece_component(piece: &String, first: bool) -> (r: Option<PathComponent>)
    ensures
        match r {
            Some(c) => piece_comp(piece@, first) == Some(c@),
            None => piece_comp(piece@, first) is None,
        },
{
    let cs = chars_of(piece.as_str());
    if cs.len() == 0 {
        None
    } else if cs.len() == 1 && cs[0] == '.' {
        if first { Some(PathComponent::CurDir) } else { None }
    } else if cs.len() == 2 && cs[0] == '.' && cs[1] == '.' {
        Some(PathComponent::ParentDir)
    } else {
        Some(PathComponent::Normal(cs))
    }
}

fn components(s: &str) -> (out: Vec<PathComponent>)
    ensures
        comp_views(out@) == comps_of(s@),
{
    let cs = chars_of(s);
    let absolute = cs.len() > 0 && cs[0] == '/';
    let pieces = split_str(s, '/');
    let ghost ps = split_on(s@, '/');
    let mut out: Vec<PathComponent> = Vec::new();
    if absolute {
        out.push(PathComponent::RootDir);
    }
    let ghost base = comp_views(out@);
    let mut i: usize = 0;
    assert(ps.take(0) =~= Seq::<Seq<char>>::empty());
    assert(comp_views(out@) =~= base + comps_from(ps.take(0)));
    while i < pieces.len()
        invariant
            views(pieces@) == ps,
            i <= pieces.len(),
            comp_views(out@) == base + comps_from(ps.take(i as int)),
        decreases pieces.len() - i,
    {
        assert(pieces@[i as int]@ == ps[i as int]);
        let c = piece_component(&pieces[i], i == 0);
        assert(ps.take(i as int + 1).drop_last() =~= ps.take(i as int));
        assert(ps.take(i as int + 1).last() == ps[i as int]);
        let ghost prev = comp_views(out@);
        match c {
            Some(c) => {
                out.push(c);
                assert(comp_views(out@) =~= prev.push(c@));
            },
            None => {},
        }
        i = i + 1;
        assert(comp_views(out@) =~= base + comps_from(ps.take(i as int)));
    }
    assert(ps.take(pieces.len() as int) =~= ps);
    if absolute {
        assert(base =~= seq![Comp::Root]);
    } else {
        assert(base =~= Seq::<Comp>::empty());
        assert(comp_views(out@) =~= comps_from(ps));
    }
    out
}

fn resolve_components(cs: Vec<PathComponent>) -> (out: Vec<PathComponent>)
    ensures
        comp_views(out@) == resolve(comp_views(cs@)),
{
    let ghost all = comp_views(cs@);
    let mut out: Vec<PathComponent> = Vec::new();
    let mut rest = cs;
    let ghost n = all.len();
    assert(all.take(0) =~= Seq::<Comp>::empty());
    while rest.len() > 0
        invariant
            rest.len() <= n,
            n == all.len(),
            comp_views(rest@) == all.skip(n - rest.len()),
            comp_views(out@) == resolve(all.take(n - rest.len())),
        decreases rest.len(),
    {
        let ghost done = n - rest.len();
        let ghost old_rest = rest@;
        let c = rest.remove(0);
        assert(comp_views(old_rest)[0] == all[done]);
        assert(c@ == all[done]);
        assert(comp_views(rest@) =~= comp_views(old_rest).drop_first());
        assert(all.skip(done).drop_first() =~= all.skip(done + 1));
        assert(all.take(done + 1).drop_last() =~= all.take(done));
        assert(all.take(done + 1).last() == all[done]);
        let ghost prev = comp_views(out@);
        match c {
            PathComponent::ParentDir => {
                let last_is_normal = out.len() > 0 && match &out[out.len() - 1] {
                    PathComponent::Normal(_) => true,
                    _ => false,
                };
                if last_is_normal {
                    out.pop();
                    assert(comp_views(out@) =~= prev.drop_last());
                } else {
                    out.push(PathComponent::ParentDir);
                    assert(comp_views(out@) =~= prev.push(Comp::Parent));
                }
            },
            other => {
                out.push(other);
                assert(comp_views(out@) =~= prev.push(c@));
            },
        }
    }
    assert(all.take(n as int) =~= all);
    out
}

fn render_components(cs: &Vec<PathComponent>) -> (out: Vec<char>)
    ensures
        out@ == render(comp_views(cs@)),
{
    let ghost all = comp_views(cs@);
    let mut out: Vec<char> = Vec::new();
    let mut i: usize = 0;
    assert(all.take(0) =~= Seq::<Comp>::empty());
    while i < cs.len()
        invariant
            all == comp_views(cs@),
            i <= cs.len(),
            out@ == render(all.take(i as int)),
        decreases cs.len() - i,
    {
        assert(all.take(i as int + 1).drop_last() =~= all.take(i as int));
        assert(all.take(i as int + 1).last() == cs@[i as int]@);
        let ghost prev = out@;
        match &cs[i] {
            PathComponent::RootDir => {
                out = Vec::new();
                out.push('/');
                assert(out@ =~= seq!['/']);
            },
            c => {
                if out.len() > 0 && out[out.len() - 1] != '/' {
                    out.push('/');
                }
                match c {
                    PathComponent::CurDir => {
                        out.push('.');
                    },
                    PathComponent::ParentDir => {
                        out.push('.');
                        out.push('.');
                    },
                    PathComponent::Normal(x) => {
                        extend_chars(&mut out, x.as_slice());
                    },
                    PathComponent::RootDir => {},
                }
                assert(out@ =~= render_push(prev, cs@[i as int]@));
            },
        }
        i = i + 1;
    }
    assert(all.take(cs.len() as int) =~= all);
    out
}

/// Resolves `..` components against the preceding directory, without following
/// links; `a/b/../c` becomes `a/c`. A trailing slash is kept.
pub fn normalize_path(path: &str) -> (out: String)
    ensures
        out@ == spec_normalize(path@),
{
    let cs = chars_of(path);
    let ends_with_slash = cs.len() > 0 && cs[cs.len() - 1] == '/';
    let comps = components(path);
    let resolved = resolve_components(comps);
    let mut r = render_components(&resolved);
    if ends_with_slash && r.len() > 0 && r[r.len() - 1] != '/' {
        r.push('/');
    }
    string_of(r.as_slice())
}

/// Why a user path could not be resolved.
#[derive(Debug, Clone, Copy, PartialEq, Eq, Structural)]
pub enum PathError {
    /// The path starts with `~` and the home directory is unknown.
    HomeNotFound,
    /// The path is relative and the current directory is unknown.
    CurrentDirUnavailable,
}

/// Appending `p` to the path `buf`; an absolute `p` replaces `buf`.
pub open spec fn push_path(buf: Seq<char>, p: Seq<char>) -> Seq<char> {
    if is_absolute(p) {
        p
    } else if buf.len() > 0 && buf.last() != '/' {
        buf.push('/') + p
    } else {
        buf + p
    }
}

/// Whether the input names a path under the home directory: `~` or `~/...`.
pub open spec fn is_home_relative(s: Seq<char>) -> bool {
    (s.len() >= 2 && s[0] == '~' && s[1] == '/') || (s.len() == 1 && s[0] == '~')
}

/// The usable path for user input: absolute input is kept as it is, `~` input is
/// taken from the home directory and other input from the current directory, and
/// both of these are normalized.
pub open spec fn spec_path_from(
    input: Seq<char>,
    home: Option<Seq<char>>,
    current_dir: Option<Seq<char>>,
) -> Result<Seq<char>, PathError> {
    if is_absolute(input) {
        Ok(input)
    } else if is_home_relative(input) {
        match home {
            None => Err(PathError::HomeNotFound),
            Some(h) => Ok(spec_normalize(
                if input.len() > 1 { push_path(h, input.skip(2)) } else { h },
            )),
        }
    } else {
        match current_dir {
            None => Err(PathError::CurrentDirUnavailable),
            Some(c) => Ok(spec_normalize(push_path(c, input))),
        }
    }
}

fn push_path_chars(buf: &mut Vec<char>, p: &[char])
    ensures
        final(buf)@ == push_path(old(buf)@, p@),
{
    if p.len() > 0 && p[0] == '/' {
        *buf = Vec::new();
        extend_chars(buf, p);
        assert(buf@ =~= p@);
    } else {
        if buf.len() > 0 && buf[buf.len() - 1] != '/' {
            buf.push('/');
        }
        extend_chars(buf, p);
    }
}

/// Builds a usable path from user input, given the home directory and the current
/// directory where they are known.
pub fn path_from(input: &str, home: Option<String>, current_dir: Option<String>) -> (r: Result<String, PathError>)
    ensures
        match r {
            Ok(p) => spec_path_from(input@, opt_view(home), opt_view(current_dir)) == Ok::<Seq<char>, PathError>(p@),
            Err(e) => spec_path_from(input@, opt_view(home), opt_view(current_dir)) == Err::<Seq<char>, PathError>(e),
        },
{
    let cs = chars_of(input);
    if cs.len() > 0 && cs[0] == '/' {
        return Ok(input.to_owned());
    }
    if (cs.len() >= 2 && cs[0] == '~' && cs[1] == '/') || (cs.len() == 1 && cs[0] == '~') {
        match home {
            None => Err(PathError::HomeNotFound),
            Some(h) => {
                let mut buf = chars_of(h.as_str());
                if cs.len() > 1 {
                    let rest = slice_from(&cs, 2);
                    push_path_chars(&mut buf, rest.as_slice());
                }
                let joined = string_of(buf.as_slice());
                Ok(normalize_path(joined.as_str()))
            },
        }
    } else {
        match current_dir {
            None => Err(PathError::CurrentDirUnavailable),
            Some(c) => {
                let mut buf = chars_of(c.as_str());
                push_path_chars(&mut buf, cs.as_slice());
                let joined = string_of(buf.as_slice());
                Ok(normalize_path(joined.as_str()))
            },
        }
    }
}

/// The text of an optional string.
pub open spec fn opt_view(o: Option<String>) -> Option<Seq<char>> {
    match o {
        Some(s) => Some(s@),
        None => None,
    }
}

fn slice_from(v: &Vec<char>, start: usize) -> (out: Vec<char>)
    requires
        start <= v.len(),
    ensures
        out@ == v@.skip(start as int),
{
    let mut out: Vec<char> = Vec::new();
    let mut i = start;
    while i < v.len()
        invariant
            start <= i <= v.len(),
            out@ == v@.subrange(start as int, i as int),
        decreases v.len() - i,
    {
        out.push(v[i]);
        i = i + 1;
        assert(out@ =~= v@.subrange(start as int, i as int));
    }
    assert(out@ =~= v@.skip(start as int));
    out
}

// ---------------------------------------------------------------------------
// Normalizing twice is normalizing once.

/// Whether a normal piece is a plain name: not empty, without slashes, not `.` or `..`.
pub open spec fn normal_ok(x: Seq<char>) -> bool {
    x.len() > 0 && !x.contains('/') && !is_dot(x) && !is_dot_dot(x)
}

/// Components as a path library reads them: a root or a leading `.` only in front,
/// and normal components that are plain names.
pub open spec fn input_ok(cs: Seq<Comp>) -> bool {
    &&& forall|i: int| 0 <= i < cs.len() && (cs[i] is Root || cs[i] is Cur) ==> i == 0
    &&& forall|i: int| 0 <= i < cs.len() && #[trigger] cs[i] is Normal ==> normal_ok(cs[i]->Normal_0)
}

/// Components with every resolvable `..` resolved.
pub open spec fn resolved_ok(cs: Seq<Comp>) -> bool {
    &&& input_ok(cs)
    &&& forall|i: int| 0 < i < cs.len() && #[trigger] cs[i] is Parent ==> !(cs[i - 1] is Normal)
}

proof fn lemma_split_pieces_plain(s: Seq<char>, sep: char)
    ensures
        forall|i: int| 0 <= i < split_on(s, sep).len() ==> !(#[trigger] split_on(s, sep)[i]).contains(sep),
    decreases s.len(),
{
    crate::text::lemma_split_nonempty(s, sep);
    if s.len() > 0 {
        let prev = split_on(s.drop_last(), sep);
        lemma_split_pieces_plain(s.drop_last(), sep);
        crate::text::lemma_split_nonempty(s.drop_last(), sep);
        if s.last() != sep {
            assert forall|i: int| 0 <= i < split_on(s, sep).len() implies !(#[trigger] split_on(s, sep)[i]).contains(sep) by {
                if i == prev.len() - 1 {
                    let x = prev.last().push(s.last());
                    assert(split_on(s, sep)[i] == x);
                    if x.contains(sep) {
                        let k = choose|k: int| 0 <= k < x.len() && x[k] == sep;
                        if k < prev.last().len() {
                            assert(prev[prev.len() - 1][k] == sep);
                            assert(prev[prev.len() - 1].contains(sep));
                        }
                    }
                } else {
                    assert(split_on(s, sep)[i] == prev[i]);
                }
            }
        } else {
            assert forall|i: int| 0 <= i < split_on(s, sep).len() implies !(#[trigger] split_on(s, sep)[i]).contains(sep) by {
                if i < prev.len() {
                    assert(split_on(s, sep)[i] == prev[i]);
                } else {
                    assert(split_on(s, sep)[i] == Seq::<char>::empty());
                }
            }
        }
    }
}

proof fn lemma_split_leading_sep(s: Seq<char>, sep: char)
    requires
        s.len() > 0,
        s[0] == sep,
    ensures
        split_on(s, sep).len() >= 2,
        split_on(s, sep)[0].len() == 0,
    decreases s.len(),
{
    if s.len() == 1 {
        assert(s.drop_last() =~= Seq::<char>::empty());
        assert(s.last() == sep);
    } else {
        lemma_split_leading_sep(s.drop_last(), sep);
    }
}

proof fn lemma_comps_from_ok(ps: Seq<Seq<char>>)
    requires
        forall|i: int| 0 <= i < ps.len() ==> !(#[trigger] ps[i]).contains('/'),
    ensures
        input_ok(comps_from(ps)),
        forall|i: int| 0 <= i < comps_from(ps).len() ==> !(#[trigger] comps_from(ps)[i] is Root),
        ps.len() > 0 && ps[0].len() == 0 ==> forall|i: int| 0 <= i < comps_from(ps).len() ==> !(#[trigger] comps_from(ps)[i] is Cur),
    decreases ps.len(),
{
    if ps.len() > 0 {
        let init = ps.drop_last();
        assert forall|i: int| 0 <= i < init.len() implies !(#[trigger] init[i]).contains('/') by {
            assert(init[i] == ps[i]);
        }
        lemma_comps_from_ok(init);
        let a = comps_from(init);
        let b = opt_seq(piece_comp(ps.last(), ps.len() == 1));
        let r = comps_from(ps);
        assert(r == a + b);
        assert(!ps.last().contains('/')) by {
            assert(ps[ps.len() - 1] == ps.last());
        }
        if ps.len() == 1 {
            assert(a =~= Seq::<Comp>::empty());
            assert(r =~= b);
        }
        assert forall|i: int| 0 <= i < r.len() && (r[i] is Root || r[i] is Cur) implies i == 0 by {
            if i < a.len() {
                assert(r[i] == a[i]);
            } else {
                assert(r[i] == b[i - a.len()]);
            }
        }
        assert forall|i: int| 0 <= i < r.len() && #[trigger] r[i] is Normal implies normal_ok(r[i]->Normal_0) by {
            if i < a.len() {
                assert(r[i] == a[i]);
            } else {
                assert(r[i] == b[i - a.len()]);
            }
        }
        assert forall|i: int| 0 <= i < r.len() implies !(#[trigger] r[i] is Root) by {
            if i < a.len() {
                assert(r[i] == a[i]);
            } else {
                assert(r[i] == b[i - a.len()]);
            }
        }
        if ps[0].len() == 0 {
            if ps.len() > 1 {
                assert(init[0] == ps[0]);
            }
            assert forall|i: int| 0 <= i < r.len() implies !(#[trigger] r[i] is Cur) by {
                if i < a.len() {
                    assert(r[i] == a[i]);
                } else {
                    assert(r[i] == b[i - a.len()]);
                }
            }
        }
    }
}

proof fn lemma_comps_of_ok(s: Seq<char>)
    ensures
        input_ok(comps_of(s)),
{
    lemma_split_pieces_plain(s, '/');
    let ps = split_on(s, '/');
    lemma_comps_from_ok(ps);
    if is_absolute(s) {
        lemma_split_leading_sep(s, '/');
        let t = comps_from(ps);
        let r = seq![Comp::Root] + t;
        assert forall|i: int| 0 <= i < r.len() && (r[i] is Root || r[i] is Cur) implies i == 0 by {
            if i > 0 {
                assert(r[i] == t[i - 1]);
            }
        }
        assert forall|i: int| 0 <= i < r.len() && #[trigger] r[i] is Normal implies normal_ok(r[i]->Normal_0) by {
            assert(r[i] == t[i - 1]);
        }
    }
}

proof fn lemma_prefix_input_ok(cs: Seq<Comp>)
    requires
        input_ok(cs),
        cs.len() > 0,
    ensures
        input_ok(cs.drop_last()),
{
    let init = cs.drop_last();
    assert forall|i: int| 0 <= i < init.len() && (init[i] is Root || init[i] is Cur) implies i == 0 by {
        assert(init[i] == cs[i]);
    }
    assert forall|i: int| 0 <= i < init.len() && #[trigger] init[i] is Normal implies normal_ok(init[i]->Normal_0) by {
        assert(init[i] == cs[i]);
    }
}

proof fn lemma_prefix_resolved_ok(cs: Seq<Comp>)
    requires
        resolved_ok(cs),
        cs.len() > 0,
    ensures
        resolved_ok(cs.drop_last()),
{
    lemma_prefix_input_ok(cs);
    let init = cs.drop_last();
    assert forall|i: int| 0 < i < init.len() && #[trigger] init[i] is Parent implies !(init[i - 1] is Normal) by {
        assert(init[i] == cs[i]);
        assert(init[i - 1] == cs[i - 1]);
    }
}

proof fn lemma_push_resolved_ok(acc: Seq<Comp>, c: Comp)
    requires
        resolved_ok(acc),
        (c is Root || c is Cur) ==> acc.len() == 0,
        c is Normal ==> normal_ok(c->Normal_0),
        c is Parent ==> acc.len() == 0 || !(acc.last() is Normal),
    ensures
        resolved_ok(acc.push(c)),
{
    let r = acc.push(c);
    assert forall|i: int| 0 <= i < r.len() && (r[i] is Root || r[i] is Cur) implies i == 0 by {
        if i < acc.len() {
            assert(r[i] == acc[i]);
        }
    }
    assert forall|i: int| 0 <= i < r.len() && #[trigger] r[i] is Normal implies normal_ok(r[i]->Normal_0) by {
        if i < acc.len() {
            assert(r[i] == acc[i]);
        }
    }
    assert forall|i: int| 0 < i < r.len() && #[trigger] r[i] is Parent implies !(r[i - 1] is Normal) by {
        assert(r[i - 1] == acc[i - 1]);
        if i < acc.len() {
            assert(r[i] == acc[i]);
        }
    }
}

proof fn lemma_resolve_ok(cs: Seq<Comp>)
    requires
        input_ok(cs),
    ensures
        resolved_ok(resolve(cs)),
    decreases cs.len(),
{
    if cs.len() > 0 {
        let init = cs.drop_last();
        lemma_prefix_input_ok(cs);
        lemma_resolve_ok(init);
        let acc = resolve(init);
        let c = cs.last();
        assert(c == cs[cs.len() - 1]);
        if c is Root || c is Cur {
            assert(init.len() == 0);
            assert(acc =~= Seq::<Comp>::empty());
            lemma_push_resolved_ok(acc, c);
        } else if c is Parent {
            if acc.len() > 0 && acc.last() is Normal {
                lemma_prefix_resolved_ok(acc);
            } else {
                lemma_push_resolved_ok(acc, c);
            }
        } else {
            lemma_push_resolved_ok(acc, c);
        }
    }
}

proof fn lemma_resolve_fixed(cs: Seq<Comp>)
    requires
        resolved_ok(cs),
    ensures
        resolve(cs) == cs,
    decreases cs.len(),
{
    if cs.len() > 0 {
        let init = cs.drop_last();
        assert(resolved_ok(init)) by {
            assert forall|i: int| 0 <= i < init.len() && (init[i] is Root || init[i] is Cur) implies i == 0 by {
                assert(init[i] == cs[i]);
            }
            assert forall|i: int| 0 <= i < init.len() && #[trigger] init[i] is Normal implies normal_ok(init[i]->Normal_0) by {
                assert(init[i] == cs[i]);
            }
            assert forall|i: int| 0 < i < init.len() && #[trigger] init[i] is Parent implies !(init[i - 1] is Normal) by {
                assert(init[i] == cs[i]);
                assert(init[i - 1] == cs[i - 1]);
            }
        }
        lemma_resolve_fixed(init);
        let c = cs.last();
        assert(c == cs[cs.len() - 1]);
        if c is Parent && init.len() > 0 {
            assert(init.last() == cs[cs.len() - 2]);
        }
        assert(cs =~= init.push(c));
    }
}

/// The texts of the components.
pub open spec fn texts(cs: Seq<Comp>) -> Seq<Seq<char>> {
    cs.map_values(|c: Comp| comp_text(c))
}

/// Components that are not the root are written joined by `/`.
proof fn lemma_render_plain(cs: Seq<Comp>)
    requires
        cs.len() > 0,
        forall|i: int| 0 <= i < cs.len() ==> !(#[trigger] cs[i] is Root),
        forall|i: int| 0 <= i < cs.len() && #[trigger] cs[i] is Normal ==> normal_ok(cs[i]->Normal_0),
    ensures
        render(cs) == crate::text::join_with(texts(cs), '/'),
        render(cs).len() > 0,
        render(cs).last() != '/',
    decreases cs.len(),
{
    let c = cs.last();
    assert(c == cs[cs.len() - 1]);
    let t = comp_text(c);
    assert(t.len() > 0 && t.last() != '/') by {
        if c is Normal {
            let x = c->Normal_0;
            assert(normal_ok(x));
            if x.last() == '/' {
                assert(x[x.len() - 1] == '/');
                assert(x.contains('/'));
            }
        }
    }
    if cs.len() == 1 {
        assert(cs.drop_last() =~= Seq::<Comp>::empty());
        assert(render(cs.drop_last()) == Seq::<char>::empty());
        assert(render(cs) == render_push(Seq::<char>::empty(), c));
        assert(render(cs) =~= t);
        assert(texts(cs) =~= seq![t]);
    } else {
        let init = cs.drop_last();
        assert forall|i: int| 0 <= i < init.len() implies !(#[trigger] init[i] is Root) by {
            assert(init[i] == cs[i]);
        }
        assert forall|i: int| 0 <= i < init.len() && #[trigger] init[i] is Normal implies normal_ok(init[i]->Normal_0) by {
            assert(init[i] == cs[i]);
        }
        lemma_render_plain(init);
        assert(texts(cs).drop_last() =~= texts(init));
        assert(texts(cs).last() == t);
        let r = render(cs);
        assert(r == render(init).push('/') + t);
        assert(r.last() == t.last());
    }
}

proof fn lemma_join_after_empty(ts: Seq<Seq<char>>)
    requires
        ts.len() > 0,
    ensures
        crate::text::join_with(seq![Seq::<char>::empty()] + ts, '/') == seq!['/'] + crate::text::join_with(ts, '/'),
    decreases ts.len(),
{
    let e = Seq::<char>::empty();
    let full = seq![e] + ts;
    assert(full.len() == ts.len() + 1);
    assert(full.drop_last() =~= seq![e] + ts.drop_last());
    assert(full.last() == ts.last());
    if ts.len() == 1 {
        assert(seq![e] + ts.drop_last() =~= seq![e]);
        assert(crate::text::join_with(seq![e], '/') == e);
        assert(crate::text::join_with(ts, '/') == ts[0]);
        assert(ts.last() == ts[0]);
        assert(crate::text::join_with(full, '/') == e.push('/') + ts[0]);
        assert(e.push('/') + ts[0] =~= seq!['/'] + ts[0]);
    } else {
        lemma_join_after_empty(ts.drop_last());
        let j = crate::text::join_with(ts.drop_last(), '/');
        assert(crate::text::join_with(full, '/') == (seq!['/'] + j).push('/') + ts.last());
        assert(crate::text::join_with(ts, '/') == j.push('/') + ts.last());
        assert((seq!['/'] + j).push('/') + ts.last() =~= seq!['/'] + (j.push('/') + ts.last()));
    }
}

proof fn lemma_comps_from_texts(ps: Seq<Seq<char>>, cs: Seq<Comp>)
    requires
        ps.len() == cs.len(),
        forall|i: int| 0 <= i < cs.len() ==> piece_comp(#[trigger] ps[i], i == 0) == Some(cs[i]),
    ensures
        comps_from(ps) == cs,
    decreases ps.len(),
{
    if ps.len() > 0 {
        let init = ps.drop_last();
        let cinit = cs.drop_last();
        assert forall|i: int| 0 <= i < cinit.len() implies piece_comp(#[trigger] init[i], i == 0) == Some(cinit[i]) by {
            assert(piece_comp(ps[i], i == 0) == Some(cs[i]));
        }
        lemma_comps_from_texts(init, cinit);
        let k = cs.len() - 1;
        assert(piece_comp(ps[k], k == 0) == Some(cs[k]));
        assert(ps.last() == ps[ps.len() - 1]);
        assert(cs =~= cinit.push(cs.last()));
    }
}

proof fn lemma_comps_from_texts_skip(ps: Seq<Seq<char>>, cs: Seq<Comp>)
    requires
        ps.len() == cs.len() + 1,
        ps[0].len() == 0,
        forall|i: int| 0 <= i < cs.len() ==> piece_comp(ps[i + 1], false) == Some(#[trigger] cs[i]),
    ensures
        comps_from(ps) == cs,
    decreases ps.len(),
{
    if ps.len() == 1 {
        assert(ps.drop_last() =~= Seq::<Seq<char>>::empty());
        assert(ps.last() == ps[0]);
        assert(piece_comp(ps.last(), true) is None);
        assert(comps_from(ps) == comps_from(ps.drop_last()) + Seq::<Comp>::empty());
        assert(comps_from(ps) =~= Seq::<Comp>::empty());
        assert(cs =~= Seq::<Comp>::empty());
    } else {
        let init = ps.drop_last();
        let cinit = cs.drop_last();
        assert forall|i: int| 0 <= i < cinit.len() implies piece_comp(init[i + 1], false) == Some(#[trigger] cinit[i]) by {
            assert(piece_comp(ps[i + 1], false) == Some(cs[i]));
            assert(init[i + 1] == ps[i + 1]);
        }
        assert(init[0] == ps[0]);
        lemma_comps_from_texts_skip(init, cinit);
        let k = cs.len() - 1;
        assert(piece_comp(ps[k + 1], false) == Some(cs[k]));
        assert(ps.last() == ps[ps.len() - 1]);
        assert(cs =~= cinit.push(cs.last()));
    }
}

proof fn lemma_piece_of_text(c: Comp, first: bool)
    requires
        c is Normal ==> normal_ok(c->Normal_0),
        c is Cur ==> first,
        !(c is Root),
    ensures
        piece_comp(comp_text(c), first) == Some(c),
{
}

#[verifier::rlimit(60)]
proof fn lemma_comps_of_render_root(cs: Seq<Comp>)
    requires
        resolved_ok(cs),
        cs.len() > 0,
        cs[0] is Root,
    ensures
        comps_of(render(cs)) == cs,
{
    let rest = cs.drop_first();
    if rest.len() == 0 {
        assert(cs =~= seq![Comp::Root]);
        assert(cs.drop_last() =~= Seq::<Comp>::empty());
        assert(render(cs) =~= seq!['/']);
        let s = seq!['/'];
        let e = Seq::<char>::empty();
        assert(s.drop_last() =~= e);
        assert(split_on(e, '/') == seq![e]);
        assert(s.last() == '/');
        let ps = split_on(s, '/');
        assert(ps == split_on(e, '/').push(e));
        assert(ps =~= seq![e, e]);
        lemma_comps_of_empty();
        assert(split_on(e, '/') =~= seq![e]);
        assert(ps.drop_last() =~= seq![e]);
        assert(ps.last() == e);
        assert(piece_comp(e, false) is None);
        assert(comps_from(ps) == comps_from(seq![e]) + opt_seq(piece_comp(e, false)));
        assert(comps_from(ps) =~= Seq::<Comp>::empty());
        assert(is_absolute(s));
        assert(seq![Comp::Root] + Seq::<Comp>::empty() =~= cs);
    } else {
        assert forall|i: int| 0 <= i < rest.len() implies !(#[trigger] rest[i] is Root) by {
            assert(rest[i] == cs[i + 1]);
        }
        assert forall|i: int| 0 <= i < rest.len() && #[trigger] rest[i] is Normal implies normal_ok(rest[i]->Normal_0) by {
            assert(rest[i] == cs[i + 1]);
        }
        assert forall|i: int| 1 <= i < cs.len() implies !(#[trigger] cs[i] is Root) by {}
        lemma_render_root_prefix(cs);
        let j = crate::text::join_with(texts(rest), '/');
        lemma_join_after_empty(texts(rest));
        let ps = seq![Seq::<char>::empty()] + texts(rest);
        assert forall|i: int| 0 <= i < ps.len() implies !(#[trigger] ps[i]).contains('/') by {
            if i > 0 {
                lemma_text_plain(rest[i - 1]);
                assert(ps[i] == comp_text(rest[i - 1]));
            }
        }
        crate::text::lemma_split_join(ps, '/');
        assert forall|i: int| 0 <= i < rest.len() implies piece_comp(ps[i + 1], false) == Some(#[trigger] rest[i]) by {
            assert(rest[i] == cs[i + 1]);
            assert(ps[i + 1] == comp_text(rest[i]));
            lemma_piece_of_text(rest[i], false);
        }
        lemma_comps_from_texts_skip(ps, rest);
        assert(render(cs) == seq!['/'] + j);
        assert(is_absolute(render(cs)));
        assert(cs =~= seq![Comp::Root] + rest);
    }
}

proof fn lemma_text_plain(c: Comp)
    requires
        c is Normal ==> normal_ok(c->Normal_0),
        !(c is Root),
    ensures
        !comp_text(c).contains('/'),
{
    if !(c is Normal) && comp_text(c).contains('/') {
        let t = comp_text(c);
        let k = choose|k: int| 0 <= k < t.len() && t[k] == '/';
        if c is Cur {
            assert(t =~= seq!['.']);
            assert(t[0] == '.');
        } else {
            assert(t =~= seq!['.', '.']);
            assert(t[0] == '.' && t[1] == '.');
        }
    }
}

proof fn lemma_comps_of_render_plain(cs: Seq<Comp>)
    requires
        resolved_ok(cs),
        cs.len() > 0,
        !(cs[0] is Root),
    ensures
        comps_of(render(cs)) == cs,
{
    assert forall|i: int| 0 <= i < cs.len() implies !(#[trigger] cs[i] is Root) by {}
    lemma_render_plain(cs);
    let ps = texts(cs);
    assert forall|i: int| 0 <= i < ps.len() implies !(#[trigger] ps[i]).contains('/') by {
        lemma_text_plain(cs[i]);
    }
    crate::text::lemma_split_join(ps, '/');
    assert forall|i: int| 0 <= i < cs.len() implies piece_comp(#[trigger] ps[i], i == 0) == Some(cs[i]) by {
        lemma_piece_of_text(cs[i], i == 0);
    }
    lemma_comps_from_texts(ps, cs);
    let r = render(cs);
    assert(!is_absolute(r)) by {
        lemma_join_first(ps, '/');
        let c = cs[0];
        assert(ps[0] == comp_text(c));
        if c is Normal {
            let x = c->Normal_0;
            assert(normal_ok(x));
            if x[0] == '/' {
                assert(x.contains('/'));
            }
        }
    }
}

proof fn lemma_comps_of_empty()
    ensures
        comps_of(Seq::<char>::empty()) == Seq::<Comp>::empty(),
{
    let e = Seq::<char>::empty();
    assert(split_on(e, '/') =~= seq![e]);
    assert(seq![e].drop_last() =~= Seq::<Seq<char>>::empty());
    assert(piece_comp(e, true) is None);
    assert(seq![e].last() == e);
    assert(comps_from(Seq::<Seq<char>>::empty()) == Seq::<Comp>::empty());
    assert(comps_from(seq![e]) == Seq::<Comp>::empty() + opt_seq(piece_comp(e, true)));
    assert(comps_from(seq![e]) =~= Seq::<Comp>::empty());
}

/// Reading back written components gives the same components.
proof fn lemma_comps_of_render(cs: Seq<Comp>)
    requires
        resolved_ok(cs),
    ensures
        comps_of(render(cs)) == cs,
{
    if cs.len() == 0 {
        lemma_comps_of_empty();
        assert(render(cs) == Seq::<char>::empty());
    } else if cs[0] is Root {
        lemma_comps_of_render_root(cs);
    } else {
        lemma_comps_of_render_plain(cs);
    }
}

proof fn lemma_join_first(ps: Seq<Seq<char>>, sep: char)
    requires
        ps.len() > 0,
        ps[0].len() > 0,
    ensures
        crate::text::join_with(ps, sep).len() > 0,
        crate::text::join_with(ps, sep)[0] == ps[0][0],
    decreases ps.len(),
{
    if ps.len() > 1 {
        assert(ps.drop_last()[0] == ps[0]);
        lemma_join_first(ps.drop_last(), sep);
    }
}

proof fn lemma_render_root_prefix(cs: Seq<Comp>)
    requires
        cs.len() >= 2,
        cs[0] is Root,
        forall|i: int| 1 <= i < cs.len() ==> !(#[trigger] cs[i] is Root),
        forall|i: int| 0 <= i < cs.len() && #[trigger] cs[i] is Normal ==> normal_ok(cs[i]->Normal_0),
    ensures
        render(cs) == seq!['/'] + crate::text::join_with(texts(cs.drop_first()), '/'),
    decreases cs.len(),
{
    let rest = cs.drop_first();
    let c = cs.last();
    assert(c == cs[cs.len() - 1]);
    if cs.len() == 2 {
        assert(cs.drop_last() =~= seq![Comp::Root]);
        assert(seq![Comp::Root].drop_last() =~= Seq::<Comp>::empty());
        assert(render(seq![Comp::Root]) =~= seq!['/']);
        assert(rest =~= seq![c]);
        assert(texts(rest) =~= seq![comp_text(c)]);
    } else {
        let init = cs.drop_last();
        assert forall|i: int| 1 <= i < init.len() implies !(#[trigger] init[i] is Root) by {
            assert(init[i] == cs[i]);
        }
        assert forall|i: int| 0 <= i < init.len() && #[trigger] init[i] is Normal implies normal_ok(init[i]->Normal_0) by {
            assert(init[i] == cs[i]);
        }
        lemma_render_root_prefix(init);
        let rinit = init.drop_first();
        assert forall|i: int| 0 <= i < rinit.len() implies !(#[trigger] rinit[i] is Root) by {
            assert(rinit[i] == cs[i + 1]);
        }
        assert forall|i: int| 0 <= i < rinit.len() && #[trigger] rinit[i] is Normal implies normal_ok(rinit[i]->Normal_0) by {
            assert(rinit[i] == cs[i + 1]);
        }
        lemma_render_plain(rinit);
        assert(rest.drop_last() =~= rinit);
        assert(texts(rest).drop_last() =~= texts(rinit));
        assert(texts(rest).last() == comp_text(c));
        let j = crate::text::join_with(texts(rinit), '/');
        assert(render(init) == seq!['/'] + j);
        assert((seq!['/'] + j).last() == j.last());
        assert((seq!['/'] + j).push('/') + comp_text(c) =~= seq!['/'] + (j.push('/') + comp_text(c)));
    }
}

proof fn lemma_comps_of_trailing(r: Seq<char>)
    requires
        r.len() > 0,
        r.last() != '/',
    ensures
        comps_of(r.push('/')) == comps_of(r),
{
    let s = r.push('/');
    assert(s.drop_last() =~= r);
    crate::text::lemma_split_nonempty(r, '/');
    let ps = split_on(s, '/');
    assert(ps.drop_last() == split_on(r, '/'));
    assert(comps_from(ps) =~= comps_from(split_on(r, '/')));
    assert(is_absolute(s) == is_absolute(r)) by {
        assert(s[0] == r[0]);
    }
}

/// Normalizing a normalized path changes nothing.
pub proof fn lemma_normalize_idempotent(s: Seq<char>)
    ensures
        spec_normalize(spec_normalize(s)) == spec_normalize(s),
{
    lemma_comps_of_ok(s);
    let cs = resolve(comps_of(s));
    lemma_resolve_ok(comps_of(s));
    lemma_comps_of_render(cs);
    lemma_resolve_fixed(cs);
    let r = render(cs);
    let n1 = spec_normalize(s);
    if s.len() > 0 && s.last() == '/' && r.len() > 0 && r.last() != '/' {
        assert(n1 == r.push('/'));
        lemma_comps_of_trailing(r);
        assert(n1.last() == '/');
    }
}

/// A path built from home-relative or relative input is already normal:
/// normalizing it again changes nothing.
pub proof fn lemma_path_from_is_normal(input: Seq<char>, home: Option<Seq<char>>, current_dir: Option<Seq<char>>)
    requires
        !is_absolute(input),
        spec_path_from(input, home, current_dir) is Ok,
    ensures
        spec_normalize(spec_path_from(input, home, current_dir)->Ok_0) == spec_path_from(input, home, current_dir)->Ok_0,
{
    if is_home_relative(input) {
        let h = home->Some_0;
        lemma_normalize_idempotent(if input.len() > 1 { push_path(h, input.skip(2)) } else { h });
    } else {
        lemma_normalize_idempotent(push_path(current_dir->Some_0, input));
    }
}

} // verus!
