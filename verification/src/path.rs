//! POSIX paths, read component by component.

use vstd::prelude::*;

use crate::text;

verus! {

/// The pieces of a path that name something: empty pieces and `.` do not.
pub open spec fn kept(pieces: Seq<Seq<char>>) -> Seq<Seq<char>>
    decreases pieces.len(),
{
    if pieces.len() == 0 {
        Seq::empty()
    } else if pieces.last().len() == 0 || pieces.last() == "."@ {
        kept(pieces.drop_last())
    } else {
        kept(pieces.drop_last()).push(pieces.last())
    }
}

/// The segments of a path, with repeated separators, a trailing separator and `.` ignored.
pub open spec fn segments(p: Seq<char>) -> Seq<Seq<char>> {
    kept(text::split(p, '/'))
}

/// Whether a path starts at the root directory.
pub open spec fn is_absolute(p: Seq<char>) -> bool {
    p.len() > 0 && p[0] == '/'
}

/// Where a path starts: at the root directory, explicitly at the current one, or neither.
pub open spec fn anchor(p: Seq<char>) -> Seq<Seq<char>> {
    if is_absolute(p) {
        seq!["/"@]
    } else if text::split(p, '/')[0] == "."@ {
        seq!["."@]
    } else {
        Seq::empty()
    }
}

/// The components of a path: where it starts, and its segments.
pub open spec fn components(p: Seq<char>) -> Seq<Seq<char>> {
    anchor(p) + segments(p)
}

/// Whether the absolute path `p`, which does not climb, lies strictly under `root`.
pub open spec fn strictly_under(p: Seq<char>, root: Seq<char>) -> bool {
    &&& is_absolute(p)
    &&& !segments(p).contains(".."@)
    &&& components(root).len() < components(p).len()
    &&& components(root) == components(p).take(components(root).len() as int)
}

/// How the absolute path `p` reads with nothing superfluous in it.
pub open spec fn normalised(p: Seq<char>) -> Seq<char> {
    "/"@ + text::join(segments(p), "/"@)
}

/// The segments of a path.
pub fn segments_of(p: &str) -> (r: Vec<String>)
    ensures
        r.deep_view() == segments(p@),
{
    let pieces = text::split_at_each(p, '/');
    let ghost all = pieces.deep_view();
    let mut r: Vec<String> = Vec::new();
    let mut i: usize = 0;
    assert(r.deep_view() =~= kept(all.take(0)));
    while i < pieces.len()
        invariant
            i <= pieces.len(),
            all == pieces.deep_view(),
            r.deep_view() == kept(all.take(i as int)),
        decreases pieces.len() - i,
    {
        let ghost before = r.deep_view();
        assert(all.take(i + 1).drop_last() =~= all.take(i as int));
        assert(all.take(i + 1).last() == pieces@[i as int]@);
        if !pieces[i].as_str().is_empty() && !text::same(pieces[i].as_str(), ".") {
            r.push(pieces[i].clone());
            assert(r.deep_view() =~= before.push(pieces@[i as int]@));
        }
        i = i + 1;
    }
    assert(all.take(i as int) =~= all);
    r
}

/// Whether a path starts at the root directory.
pub fn absolute(p: &str) -> (r: bool)
    ensures
        r == is_absolute(p@),
{
    let v = text::chars_of(p);
    v.len() > 0 && v[0] == '/'
}

/// The components of a path.
pub fn components_of(p: &str) -> (r: Vec<String>)
    ensures
        r.deep_view() == components(p@),
{
    let mut r: Vec<String> = Vec::new();
    assert(r.deep_view() =~= Seq::empty());
    if absolute(p) {
        r.push("/".to_string());
        assert(r.deep_view() =~= seq!["/"@]);
    } else {
        let pieces = text::split_at_each(p, '/');
        proof {
            text::lemma_split(p@, '/');
        }
        assert(pieces.deep_view()[0] == pieces@[0]@);
        if text::same(pieces[0].as_str(), ".") {
            r.push(".".to_string());
            assert(r.deep_view() =~= seq!["."@]);
        }
    }
    let segs = segments_of(p);
    let ghost head = anchor(p@);
    assert(r.deep_view() =~= head);
    let mut i: usize = 0;
    assert(r.deep_view() =~= head + segs.deep_view().take(0));
    while i < segs.len()
        invariant
            i <= segs.len(),
            r.deep_view() == head + segs.deep_view().take(i as int),
        decreases segs.len() - i,
    {
        let ghost before = r.deep_view();
        r.push(segs[i].clone());
        assert(r.deep_view() =~= before.push(segs.deep_view()[i as int]));
        i = i + 1;
        assert(r.deep_view() =~= head + segs.deep_view().take(i as int));
    }
    assert(segs.deep_view().take(i as int) =~= segs.deep_view());
    r
}

/// Whether two lists of strings are the same.
pub fn same_list(a: &Vec<String>, b: &Vec<String>) -> (r: bool)
    ensures
        r == (a.deep_view() == b.deep_view()),
{
    assert(a.deep_view().len() == a.len() && b.deep_view().len() == b.len());
    if a.len() != b.len() {
        return false;
    }
    assert(b.deep_view().take(a.len() as int) =~= b.deep_view());
    starts_with(b, a)
}

/// Whether the list `a` starts with the list `b`.
pub fn starts_with(a: &Vec<String>, b: &Vec<String>) -> (r: bool)
    requires
        b.len() <= a.len(),
    ensures
        r == (b.deep_view() == a.deep_view().take(b.len() as int)),
{
    let mut i: usize = 0;
    while i < b.len()
        invariant
            i <= b.len() <= a.len(),
            forall|k: int| 0 <= k < i ==> a.deep_view()[k] == #[trigger] b.deep_view()[k],
        decreases b.len() - i,
    {
        if !text::same(a[i].as_str(), b[i].as_str()) {
            assert(b.deep_view()[i as int] != a.deep_view().take(b.len() as int)[i as int]);
            return false;
        }
        assert(a.deep_view()[i as int] == b.deep_view()[i as int]);
        i = i + 1;
    }
    assert(b.deep_view() =~= a.deep_view().take(b.len() as int));
    true
}

/// Whether the absolute path `p`, which does not climb, lies strictly under `root`.
///
/// Paths are compared by their components, not as strings: `/workspace/x` is not under `/work`.
/// A `..` segment could climb back out, so none is admitted.
pub fn is_strictly_under(p: &str, root: &str) -> (r: bool)
    ensures
        r == strictly_under(p@, root@),
{
    if !absolute(p) {
        return false;
    }
    let segs = segments_of(p);
    if text::among(&segs, "..") {
        return false;
    }
    let pc = components_of(p);
    let rc = components_of(root);
    rc.len() < pc.len() && starts_with(&pc, &rc)
}

/// How the absolute path `p` reads with nothing superfluous in it.
pub fn normalise(p: &str) -> (r: String)
    ensures
        r@ == normalised(p@),
{
    let segs = segments_of(p);
    "/".to_string().concat(text::joined(&segs, "/").as_str())
}

// ---------------------------------------------------------------------------------------------
// Laws
// ---------------------------------------------------------------------------------------------

/// A path strictly under an absolute root adds at least one segment to the root's own.
pub proof fn law_under_adds_a_segment(p: Seq<char>, root: Seq<char>)
    requires
        is_absolute(root),
        strictly_under(p, root),
    ensures
        segments(root).len() < segments(p).len(),
        segments(root) == segments(p).take(segments(root).len() as int),
{
    let cr = components(root);
    let cp = components(p);
    assert(segments(root) =~= cr.skip(1));
    assert(segments(p) =~= cp.skip(1));
    assert forall|i: int| 0 <= i < segments(root).len() implies segments(root)[i] == segments(
        p,
    )[i] by {
        assert(cr[i + 1] == cp[i + 1]);
    }
    assert(segments(root) =~= segments(p).take(segments(root).len() as int));
}

/// The root itself is never under itself.
pub proof fn law_root_is_not_under_itself(root: Seq<char>)
    ensures
        !strictly_under(root, root),
{
}

/// Absolute paths name the same place exactly if their components agree, and then they read the
/// same with nothing superfluous in them.
pub proof fn law_normalised(p: Seq<char>, q: Seq<char>)
    requires
        is_absolute(p),
        is_absolute(q),
    ensures
        components(p) == components(q) <==> segments(p) == segments(q),
        components(p) == components(q) ==> normalised(p) == normalised(q),
{
    assert(segments(p) =~= components(p).skip(1));
    assert(segments(q) =~= components(q).skip(1));
}

/// The segments of a path are what stands between its slashes, but for empty pieces and `.`.
pub proof fn law_segments(p: Seq<char>)
    ensures
        segments(p) == text::split(p, '/').filter(|x: Seq<char>| x.len() > 0 && x != "."@),
{
    lemma_kept_is_filter(text::split(p, '/'));
}

proof fn lemma_kept_is_filter(pieces: Seq<Seq<char>>)
    ensures
        kept(pieces) == pieces.filter(|x: Seq<char>| x.len() > 0 && x != "."@),
    decreases pieces.len(),
{
    reveal(Seq::filter);
    if pieces.len() > 0 {
        lemma_kept_is_filter(pieces.drop_last());
    }
}

/// A path behind another one, with a slash between them, adds its segments to that one's. A slash
/// more, before or behind, makes no difference, and neither does a `.` between slashes.
pub proof fn law_segments_add_up(p: Seq<char>, q: Seq<char>)
    ensures
        segments(p + "/"@ + q) == segments(p) + segments(q),
        segments("/"@ + p) == segments(p),
        segments(p + "/"@) == segments(p),
        segments(p + "/./"@ + q) == segments(p) + segments(q),
        segments(p + "//"@ + q) == segments(p) + segments(q),
{
    reveal_strlit("/");
    reveal_strlit("/./");
    reveal_strlit("//");
    reveal_strlit(".");
    let none = Seq::<char>::empty();
    let here = "."@;
    lemma_segments_add(p, q);
    lemma_segments_add(none, p);
    lemma_segments_add(p, none);
    assert("/"@ + p =~= none + "/"@ + p);
    assert(p + "/"@ =~= p + "/"@ + none);
    lemma_trivial(none);
    lemma_trivial(here);
    lemma_segments_add(here, q);
    lemma_segments_add(p, here + "/"@ + q);
    lemma_segments_add(none, q);
    lemma_segments_add(p, none + "/"@ + q);
    assert(p + "/./"@ + q =~= p + "/"@ + (here + "/"@ + q));
    assert(p + "//"@ + q =~= p + "/"@ + (none + "/"@ + q));
    assert(segments(none) + segments(p) =~= segments(p));
    assert(segments(p) + segments(none) =~= segments(p));
    assert(segments(here) + segments(q) =~= segments(q));
    assert(segments(none) + segments(q) =~= segments(q));
}

/// Nothing, and `.`, have no segments.
proof fn lemma_trivial(x: Seq<char>)
    requires
        x.len() == 0 || x == "."@,
    ensures
        segments(x) == Seq::<Seq<char>>::empty(),
{
    reveal_strlit(".");
    assert(!x.contains('/'));
    let one = seq![x];
    assert(text::join(one, seq!['/']) == x);
    text::law_split_takes_a_join_apart(one, '/');
    assert(one.drop_last() =~= Seq::<Seq<char>>::empty());
    assert(kept(one.drop_last()) =~= Seq::<Seq<char>>::empty());
    assert(one.last() == x);
}

proof fn lemma_segments_add(p: Seq<char>, q: Seq<char>)
    ensures
        segments(p + "/"@ + q) == segments(p) + segments(q),
{
    reveal_strlit("/");
    assert("/"@ =~= seq!['/']);
    let a = text::split(p, '/');
    let b = text::split(q, '/');
    text::lemma_split(p, '/');
    text::lemma_split(q, '/');
    lemma_join_add(a, b, seq!['/']);
    assert forall|i: int| 0 <= i < (a + b).len() implies !(#[trigger] (a + b)[i]).contains('/') by {
        if i < a.len() {
            assert((a + b)[i] == a[i]);
        } else {
            assert((a + b)[i] == b[i - a.len()]);
        }
    }
    text::law_split_takes_a_join_apart(a + b, '/');
    lemma_kept_add(a, b);
}

proof fn lemma_kept_add(a: Seq<Seq<char>>, b: Seq<Seq<char>>)
    ensures
        kept(a + b) == kept(a) + kept(b),
    decreases b.len(),
{
    if b.len() == 0 {
        assert(a + b =~= a);
        assert(kept(a) + kept(b) =~= kept(a));
    } else {
        assert((a + b).drop_last() =~= a + b.drop_last());
        assert((a + b).last() == b.last());
        lemma_kept_add(a, b.drop_last());
        assert(kept(a + b) =~= kept(a) + kept(b));
    }
}

proof fn lemma_join_add(a: Seq<Seq<char>>, b: Seq<Seq<char>>, sep: Seq<char>)
    requires
        a.len() > 0,
        b.len() > 0,
    ensures
        text::join(a + b, sep) == text::join(a, sep) + sep + text::join(b, sep),
    decreases b.len(),
{
    assert((a + b).drop_last() =~= a + b.drop_last());
    assert((a + b).last() == b.last());
    if b.len() == 1 {
        assert(a + b.drop_last() =~= a);
        assert(b[0] == b.last());
    } else {
        lemma_join_add(a, b.drop_last(), sep);
        assert(text::join(a + b, sep) =~= text::join(a, sep) + sep + text::join(b, sep));
    }
}

/// Under an absolute root lies exactly what starts at the root directory, climbs nowhere, and has
/// the root's segments and then at least one more.
pub proof fn law_strictly_under(p: Seq<char>, root: Seq<char>)
    requires
        root.len() > 0 && root[0] == '/',
    ensures
        strictly_under(p, root) <==> {
            &&& p.len() > 0 && p[0] == '/'
            &&& forall|i: int| 0 <= i < segments(p).len() ==> #[trigger] segments(p)[i] != ".."@
            &&& segments(root).len() < segments(p).len()
            &&& forall|i: int|
                0 <= i < segments(root).len() ==> #[trigger] segments(root)[i] == segments(p)[i]
        },
{
    if p.len() > 0 && p[0] == '/' {
        assert(segments(root) =~= components(root).skip(1));
        assert(segments(p) =~= components(p).skip(1));
        if strictly_under(p, root) {
            law_under_adds_a_segment(p, root);
            assert forall|i: int| 0 <= i < segments(p).len() implies #[trigger] segments(p)[i]
                != ".."@ by {
                assert(segments(p).contains(segments(p)[i]));
            }
            assert forall|i: int| 0 <= i < segments(root).len() implies #[trigger] segments(root)[i]
                == segments(p)[i] by {
                assert(segments(p).take(segments(root).len() as int)[i] == segments(p)[i]);
            }
        } else if (forall|i: int|
            0 <= i < segments(p).len() ==> #[trigger] segments(p)[i] != ".."@) && segments(root).len()
            < segments(p).len() && (forall|i: int|
            0 <= i < segments(root).len() ==> #[trigger] segments(root)[i] == segments(p)[i]) {
            assert(components(root) =~= components(p).take(components(root).len() as int)) by {
                assert forall|i: int| 0 <= i < components(root).len() implies components(root)[i]
                    == components(p)[i] by {
                    if i > 0 {
                        assert(components(root)[i] == segments(root)[i - 1]);
                        assert(components(p)[i] == segments(p)[i - 1]);
                    }
                }
            }
        }
    }
}

/// What is added to an absolute root lies under it, unless it is nothing or something in it climbs.
pub proof fn law_what_is_added_lies_under(root: Seq<char>, q: Seq<char>)
    requires
        root.len() > 0 && root[0] == '/',
        forall|i: int| 0 <= i < segments(root).len() ==> #[trigger] segments(root)[i] != ".."@,
    ensures
        strictly_under(root + "/"@ + q, root) <==> segments(q).len() > 0 && (forall|i: int|
            0 <= i < segments(q).len() ==> #[trigger] segments(q)[i] != ".."@),
{
    let p = root + "/"@ + q;
    law_segments_add_up(root, q);
    law_strictly_under(p, root);
    assert(p[0] == root[0]);
    let a = segments(root);
    let b = segments(q);
    assert forall|i: int| 0 <= i < b.len() implies #[trigger] b[i] == segments(p)[i + a.len()] by {}
    assert forall|i: int| 0 <= i < a.len() implies #[trigger] a[i] == segments(p)[i] by {}
    if forall|i: int| 0 <= i < b.len() ==> #[trigger] b[i] != ".."@ {
        assert forall|i: int| 0 <= i < segments(p).len() implies #[trigger] segments(p)[i]
            != ".."@ by {
            if i < a.len() {
                assert(segments(p)[i] == a[i]);
            } else {
                assert(segments(p)[i] == b[i - a.len()]);
            }
        }
    }
}

/// With nothing superfluous in it a path still has its segments, and starts at the root directory.
pub proof fn law_normalised_keeps_the_segments(p: Seq<char>)
    ensures
        segments(normalised(p)) == segments(p),
        normalised(normalised(p)) == normalised(p),
        normalised(p).len() > 0 && normalised(p)[0] == '/',
        segments(p).len() > 0 ==> text::split(normalised(p), '/') == seq![Seq::<char>::empty()]
            + segments(p),
{
    reveal_strlit("/");
    reveal_strlit(".");
    assert("/"@ =~= seq!['/']);
    let segs = segments(p);
    let pieces = text::split(p, '/');
    text::lemma_split(p, '/');
    lemma_kept_pieces(pieces);
    let n = normalised(p);
    if segs.len() == 0 {
        assert(n =~= "/"@ + Seq::<char>::empty());
        law_segments_add_up(Seq::empty(), Seq::empty());
        assert("/"@ + Seq::<char>::empty() =~= "/"@);
        lemma_trivial(Seq::empty());
        assert(segs =~= Seq::<Seq<char>>::empty());
    } else {
        let all = seq![Seq::<char>::empty()] + segs;
        lemma_join_add(seq![Seq::<char>::empty()], segs, seq!['/']);
        assert(text::join(seq![Seq::<char>::empty()], seq!['/']) =~= Seq::<char>::empty());
        assert(text::join(all, seq!['/']) =~= n);
        assert forall|i: int| 0 <= i < all.len() implies !(#[trigger] all[i]).contains('/') by {
            if i > 0 {
                assert(all[i] == segs[i - 1]);
            }
        }
        text::law_split_takes_a_join_apart(all, '/');
        lemma_kept_add(seq![Seq::<char>::empty()], segs);
        lemma_kept_all(segs);
        let one = seq![Seq::<char>::empty()];
        assert(one.drop_last() =~= Seq::<Seq<char>>::empty());
        assert(kept(one.drop_last()) =~= Seq::<Seq<char>>::empty());
        assert(kept(one) =~= Seq::<Seq<char>>::empty());
        assert(kept(one) + segs =~= segs);
    }
}

/// What is kept is neither empty nor `.`, and holds no slash.
proof fn lemma_kept_pieces(pieces: Seq<Seq<char>>)
    requires
        forall|i: int| 0 <= i < pieces.len() ==> !(#[trigger] pieces[i]).contains('/'),
    ensures
        forall|i: int|
            0 <= i < kept(pieces).len() ==> {
                let x = #[trigger] kept(pieces)[i];
                x.len() > 0 && x != "."@ && !x.contains('/')
            },
    decreases pieces.len(),
{
    if pieces.len() > 0 {
        let init = pieces.drop_last();
        assert forall|i: int| 0 <= i < init.len() implies !(#[trigger] init[i]).contains('/') by {
            assert(init[i] == pieces[i]);
        }
        lemma_kept_pieces(init);
        assert(!pieces[pieces.len() - 1].contains('/'));
        assert forall|i: int| 0 <= i < kept(pieces).len() implies {
            let x = #[trigger] kept(pieces)[i];
            x.len() > 0 && x != "."@ && !x.contains('/')
        } by {
            if i < kept(init).len() {
                assert(kept(pieces)[i] == kept(init)[i]);
            }
        }
    }
}

/// Where nothing is empty or `.`, everything is kept.
proof fn lemma_kept_all(pieces: Seq<Seq<char>>)
    requires
        forall|i: int| 0 <= i < pieces.len() ==> (#[trigger] pieces[i]).len() > 0 && pieces[i] != "."@,
    ensures
        kept(pieces) == pieces,
    decreases pieces.len(),
{
    if pieces.len() > 0 {
        let init = pieces.drop_last();
        assert forall|i: int| 0 <= i < init.len() implies (#[trigger] init[i]).len() > 0 && init[i]
            != "."@ by {
            assert(init[i] == pieces[i]);
        }
        lemma_kept_all(init);
        assert(pieces[pieces.len() - 1].len() > 0);
        assert(init.push(pieces.last()) =~= pieces);
    } else {
        assert(kept(pieces) =~= pieces);
    }
}

/// Nothing absolute lies under a relative root, but under the empty one, which is in front of
/// every path: there, whatever starts at the root directory and climbs nowhere.
pub proof fn law_relative_roots(p: Seq<char>, root: Seq<char>)
    requires
        root.len() == 0 || root[0] != '/',
    ensures
        root.len() > 0 ==> !strictly_under(p, root),
        root.len() == 0 ==> (strictly_under(p, root) <==> p.len() > 0 && p[0] == '/' && (forall|
            i: int,
        | 0 <= i < segments(p).len() ==> #[trigger] segments(p)[i] != ".."@)),
{
    reveal_strlit("/");
    reveal_strlit(".");
    let pieces = text::split(root, '/');
    text::lemma_split(root, '/');
    lemma_kept_pieces(pieces);
    let c = components(root);
    if root.len() == 0 {
        assert(root =~= Seq::<char>::empty());
        lemma_trivial(root);
        assert(pieces[0].len() == 0);
        assert(c =~= Seq::<Seq<char>>::empty());
        assert(c =~= components(p).take(0));
        if p.len() > 0 && p[0] == '/' {
            if forall|i: int| 0 <= i < segments(p).len() ==> #[trigger] segments(p)[i] != ".."@ {
                assert(!segments(p).contains(".."@));
            }
            if strictly_under(p, root) {
                assert forall|i: int| 0 <= i < segments(p).len() implies #[trigger] segments(p)[i]
                    != ".."@ by {
                    assert(segments(p).contains(segments(p)[i]));
                }
            }
        }
    } else if strictly_under(p, root) {
        lemma_first_is_not_empty(root);
        if pieces[0] != "."@ {
            lemma_first_piece(pieces);
        }
        assert(c.len() > 0);
        assert(c[0] == components(p).take(c.len() as int)[0]);
        assert(c[0] == "/"@);
        assert("/"@[0] == '/' && "."@[0] == '.');
        if pieces[0] != "."@ {
            assert(c[0] == segments(root)[0]);
            assert(!segments(root)[0].contains('/'));
            assert("/"@.contains("/"@[0]));
        } else {
            assert(c[0] == "."@);
        }
    }
}

/// What does not begin with a slash has a first piece that is not empty.
proof fn lemma_first_is_not_empty(s: Seq<char>)
    requires
        s.len() > 0,
        s[0] != '/',
    ensures
        text::split(s, '/').len() > 0,
        text::split(s, '/')[0].len() > 0,
    decreases s.len(),
{
    let init = s.drop_last();
    text::lemma_split(init, '/');
    text::lemma_split(s, '/');
    if s.len() > 1 {
        lemma_first_is_not_empty(init);
    } else {
        assert(init =~= Seq::<char>::empty());
        assert(text::split(init, '/') =~= seq![Seq::<char>::empty()]);
    }
}

/// The first piece is kept first, unless it is empty or `.`.
proof fn lemma_first_piece(pieces: Seq<Seq<char>>)
    requires
        pieces.len() > 0,
        pieces[0].len() > 0,
        pieces[0] != "."@,
    ensures
        kept(pieces).len() > 0,
        kept(pieces)[0] == pieces[0],
    decreases pieces.len(),
{
    if pieces.len() > 1 {
        lemma_first_piece(pieces.drop_last());
    } else {
        assert(kept(pieces.drop_last()) =~= Seq::<Seq<char>>::empty());
    }
}

} // verus!
