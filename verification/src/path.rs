//! Linux paths as text.

use vstd::prelude::*;

use crate::text::{contains_char, same_text, split, split_on, texts};

verus! {

/// Whether a path begins at the root.
pub open spec fn absolute(path: Seq<char>) -> bool {
    path.len() > 0 && path[0] == '/'
}

/// Whether a path begins at the root.
pub fn is_absolute(path: &str) -> (yes: bool)
    ensures
        yes == absolute(path@),
{
    !path.is_empty() && path.get_char(0) == '/'
}

/// The named steps among the segments of a path: those that are neither empty
/// nor `.`.
pub open spec fn named_segments(segments: Seq<Seq<char>>) -> Seq<Seq<char>>
    decreases segments.len(),
{
    if segments.len() == 0 {
        Seq::empty()
    } else {
        let before = named_segments(segments.drop_last());
        let last = segments.last();
        if last.len() == 0 || last == "."@ {
            before
        } else {
            before.push(last)
        }
    }
}

/// The components of a path: `/` for the root or `.` for a leading dot, then
/// the named steps. Repeated and trailing separators and inner dots do not
/// count.
pub open spec fn components_of(path: Seq<char>) -> Seq<Seq<char>> {
    let segments = split_on(path, '/');
    let start = if absolute(path) {
        seq!["/"@]
    } else if segments[0] == "."@ {
        seq!["."@]
    } else {
        Seq::empty()
    };
    start + named_segments(segments)
}

/// The components of a path.
pub fn components(path: &str) -> (components: Vec<String>)
    ensures
        texts(components@) == components_of(path@),
{
    let segments = split(path, '/');
    proof {
        crate::text::lemma_split_nonempty(path@, '/');
        assert(texts(segments@).len() == segments@.len());
        assert(texts(segments@)[0] == segments@[0]@);
    }
    let mut components: Vec<String> = Vec::new();
    if is_absolute(path) {
        components.push("/".to_owned());
    } else if same_text(segments[0].as_str(), ".") {
        components.push(".".to_owned());
    }
    let ghost start = texts(components@);
    assert(start =~= if absolute(path@) {
        seq!["/"@]
    } else if segments@[0]@ == "."@ {
        seq!["."@]
    } else {
        Seq::empty()
    });
    let mut i: usize = 0;
    assert(start + named_segments(texts(segments@).take(0)) =~= start);
    while i < segments.len()
        invariant
            i <= segments@.len(),
            texts(components@) == start + named_segments(texts(segments@).take(i as int)),
        decreases segments.len() - i,
    {
        let ghost before = texts(components@);
        let ghost seen = texts(segments@).take(i as int);
        proof {
            let more = texts(segments@).take(i + 1);
            assert(more.drop_last() =~= seen);
            assert(more.last() == segments@[i as int]@);
        }
        if !segments[i].as_str().is_empty() && !same_text(segments[i].as_str(), ".") {
            components.push(segments[i].clone());
            assert(texts(components@) =~= before.push(segments@[i as int]@));
            assert(before.push(segments@[i as int]@) =~= start + named_segments(seen).push(
                segments@[i as int]@,
            ));
        }
        i += 1;
    }
    assert(texts(segments@).take(i as int) =~= texts(segments@));
    components
}

/// Whether every component of a path is a named step or a leading dot: the path
/// neither begins at the root nor climbs.
pub open spec fn descends(path: Seq<char>) -> bool {
    forall|i: int|
        0 <= i < components_of(path).len() ==> (#[trigger] components_of(path)[i]) != "/"@
            && components_of(path)[i] != ".."@
}

/// Whether every component of a path is a named step or a leading dot.
pub fn is_descending(path: &str) -> (yes: bool)
    ensures
        yes == descends(path@),
{
    let parts = components(path);
    let mut i: usize = 0;
    while i < parts.len()
        invariant
            i <= parts@.len(),
            texts(parts@) == components_of(path@),
            forall|j: int|
                0 <= j < i ==> (#[trigger] components_of(path@)[j]) != "/"@ && components_of(
                    path@,
                )[j] != ".."@,
        decreases parts.len() - i,
    {
        assert(components_of(path@)[i as int] == parts@[i as int]@);
        if same_text(parts[i].as_str(), "/") || same_text(parts[i].as_str(), "..") {
            return false;
        }
        i += 1;
    }
    true
}

/// Whether `path` is `base` or lies below it, component by component.
pub open spec fn lies_under(path: Seq<char>, base: Seq<char>) -> bool {
    components_of(base).is_prefix_of(components_of(path))
}

/// Whether `path` is `base` or lies below it, component by component.
pub fn is_under(path: &str, base: &str) -> (yes: bool)
    ensures
        yes == lies_under(path@, base@),
{
    let parts = components(path);
    let wanted = components(base);
    if wanted.len() > parts.len() {
        assert(texts(wanted@).len() > texts(parts@).len());
        return false;
    }
    let mut i: usize = 0;
    while i < wanted.len()
        invariant
            i <= wanted@.len() <= parts@.len(),
            texts(parts@) == components_of(path@),
            texts(wanted@) == components_of(base@),
            forall|j: int| 0 <= j < i ==> #[trigger] parts@[j]@ == wanted@[j]@,
        decreases wanted.len() - i,
    {
        if parts[i] != wanted[i] {
            assert(texts(parts@)[i as int] != texts(wanted@)[i as int]);
            return false;
        }
        i += 1;
    }
    assert forall|j: int| 0 <= j < wanted@.len() implies texts(wanted@)[j] == texts(parts@)[j] by {
        assert(parts@[j]@ == wanted@[j]@);
    }
    assert(texts(wanted@) =~= texts(parts@).take(wanted@.len() as int));
    true
}

/// The path `rest` taken from `base`: an absolute `rest` replaces it.
pub open spec fn join_of(base: Seq<char>, rest: Seq<char>) -> Seq<char> {
    if absolute(rest) || base.len() == 0 {
        rest
    } else if base.last() == '/' {
        base + rest
    } else {
        base + "/"@ + rest
    }
}

/// The path `rest` taken from `base`.
pub fn join_path(base: &str, rest: &str) -> (path: String)
    ensures
        path@ == join_of(base@, rest@),
{
    if is_absolute(rest) || base.is_empty() {
        return rest.to_owned();
    }
    let chars = crate::text::chars_of(base);
    let n: usize = chars.len();
    if chars[n - 1] == '/' {
        base.to_owned().concat(rest)
    } else {
        base.to_owned().concat("/").concat(rest)
    }
}

/// The path built up from the first `n` components of a list.
pub open spec fn path_of(components: Seq<Seq<char>>) -> Seq<char>
    decreases components.len(),
{
    if components.len() == 0 {
        Seq::empty()
    } else {
        join_of(path_of(components.drop_last()), components.last())
    }
}

/// The path made of the components `from..to`.
pub fn join_parts(parts: &Vec<String>, from: usize, to: usize) -> (path: String)
    requires
        from <= to <= parts@.len(),
    ensures
        path@ == path_of(texts(parts@).subrange(from as int, to as int)),
{
    let ghost all = texts(parts@);
    let mut path = String::new();
    let mut i: usize = from;
    assert(all.subrange(from as int, from as int) =~= Seq::empty());
    while i < to
        invariant
            from <= i <= to <= parts@.len(),
            all == texts(parts@),
            path@ == path_of(all.subrange(from as int, i as int)),
        decreases to - i,
    {
        path = join_path(path.as_str(), parts[i].as_str());
        i += 1;
        assert(all.subrange(from as int, i as int).drop_last() =~= all.subrange(
            from as int,
            i - 1,
        ));
        assert(all.subrange(from as int, i as int).last() == parts@[i - 1]@);
    }
    path
}

/// The path of `path` below `base`, or `path` itself where it is not below.
pub open spec fn relative_to(path: Seq<char>, base: Seq<char>) -> Seq<char> {
    if lies_under(path, base) {
        path_of(components_of(path).skip(components_of(base).len() as int))
    } else {
        path
    }
}

/// The path below `base`, or the path itself where it is not below.
pub fn display_relative(base: &str, path: &str) -> (shown: String)
    ensures
        shown@ == relative_to(path@, base@),
{
    if !is_under(path, base) {
        return path.to_owned();
    }
    let parts = components(path);
    let skipped: usize = components(base).len();
    let ghost rest = components_of(path@).skip(skipped as int);
    proof {
        assert(components_of(base@).len() == skipped);
        assert(texts(parts@).len() == parts@.len());
    }
    let n: usize = parts.len();
    let shown = join_parts(&parts, skipped, n);
    assert(components_of(path@).subrange(skipped as int, n as int) =~= rest);
    shown
}

/// Whether a component is free of the wildcards `*`, `?` and `[`.
pub open spec fn plain_component(component: Seq<char>) -> bool {
    !component.contains('*') && !component.contains('?') && !component.contains('[')
}

/// The components before the first that holds a wildcard.
pub open spec fn plain_prefix(components: Seq<Seq<char>>) -> Seq<Seq<char>>
    decreases components.len(),
{
    if components.len() == 0 {
        Seq::empty()
    } else {
        let before = plain_prefix(components.drop_last());
        if before.len() == components.len() - 1 && plain_component(components.last()) {
            components
        } else {
            before
        }
    }
}

/// The directory that a glob pattern is anchored at: the path up to the first
/// component with a wildcard.
pub fn absolute_glob_anchor(pattern: &str) -> (anchor: String)
    ensures
        anchor@ == path_of(plain_prefix(components_of(pattern@))),
{
    let parts = components(pattern);
    let ghost all = components_of(pattern@);
    assert(texts(parts@).len() == parts@.len());
    let mut anchor = String::new();
    let mut i: usize = 0;
    assert(all.take(0) =~= Seq::empty());
    while i < parts.len()
        invariant
            i <= parts@.len(),
            all == components_of(pattern@),
            texts(parts@) == all,
            plain_prefix(all.take(i as int)) == all.take(i as int),
            anchor@ == path_of(all.take(i as int)),
        decreases parts.len() - i,
    {
        let part = parts[i].as_str();
        proof {
            assert(all.take(i + 1).drop_last() =~= all.take(i as int));
            assert(all.take(i + 1).last() == part@);
        }
        if contains_char(part, '*') || contains_char(part, '?') || contains_char(part, '[') {
            proof {
                lemma_plain_prefix_stops(all, i as int);
            }
            return anchor;
        }
        anchor = join_path(anchor.as_str(), part);
        i += 1;
    }
    assert(all.take(i as int) =~= all);
    anchor
}

proof fn lemma_plain_prefix_stops(components: Seq<Seq<char>>, at: int)
    requires
        0 <= at < components.len(),
        plain_prefix(components.take(at)) == components.take(at),
        !plain_component(components[at]),
    ensures
        plain_prefix(components) == components.take(at),
    decreases components.len(),
{
    let rest = components.drop_last();
    if at == components.len() - 1 {
        assert(components.take(at) =~= rest);
    } else {
        assert(rest.take(at) =~= components.take(at));
        lemma_plain_prefix_stops(rest, at);
    }
}

/// Splitting two texts in a row splits each, and runs the last piece of the
/// first into the first piece of the second.
proof fn lemma_split_concat(a: Seq<char>, b: Seq<char>, sep: char)
    ensures
        split_on(a + b, sep) == split_on(a, sep).drop_last() + seq![
            split_on(a, sep).last() + split_on(b, sep)[0],
        ] + split_on(b, sep).skip(1),
    decreases b.len(),
{
    crate::text::lemma_split_nonempty(a, sep);
    crate::text::lemma_split_nonempty(b, sep);
    let left = split_on(a, sep);
    if b.len() == 0 {
        assert(a + b =~= a);
        assert(left.last() + split_on(b, sep)[0] =~= left.last());
        assert(left =~= left.drop_last() + seq![left.last()] + split_on(b, sep).skip(1));
    } else {
        let c = b.drop_last();
        crate::text::lemma_split_nonempty(c, sep);
        lemma_split_concat(a, c, sep);
        assert((a + b).drop_last() =~= a + c);
        let right = split_on(c, sep);
        let before = split_on(a + c, sep);
        assert(before.len() == left.len() + right.len() - 1);
        if b.last() == sep {
            assert(split_on(b, sep) == right.push(Seq::empty()));
            assert(split_on(a + b, sep) =~= left.drop_last() + seq![
                left.last() + split_on(b, sep)[0],
            ] + split_on(b, sep).skip(1));
        } else if right.len() == 1 {
            assert(before.last() == left.last() + right[0]);
            assert(before.last().push(b.last()) =~= left.last() + right[0].push(b.last()));
            assert(split_on(a + b, sep) =~= left.drop_last() + seq![
                left.last() + split_on(b, sep)[0],
            ] + split_on(b, sep).skip(1));
        } else {
            assert(before.last() == right.last());
            assert(split_on(a + b, sep) =~= left.drop_last() + seq![
                left.last() + split_on(b, sep)[0],
            ] + split_on(b, sep).skip(1));
        }
    }
}

proof fn lemma_named_segments_concat(a: Seq<Seq<char>>, b: Seq<Seq<char>>)
    ensures
        named_segments(a + b) == named_segments(a) + named_segments(b),
    decreases b.len(),
{
    if b.len() == 0 {
        assert(a + b =~= a);
        assert(named_segments(a) + named_segments(b) =~= named_segments(a));
    } else {
        lemma_named_segments_concat(a, b.drop_last());
        assert((a + b).drop_last() =~= a + b.drop_last());
        assert(named_segments(a + b) =~= named_segments(a) + named_segments(b));
    }
}

/// A path taken from a base lies under that base unless it begins at the root,
/// and the steps below the base are its own named steps.
pub proof fn law_join_lies_under(base: Seq<char>, rest: Seq<char>)
    requires
        base.len() > 0,
        !absolute(rest),
    ensures
        lies_under(join_of(base, rest), base),
        components_of(join_of(base, rest)) == components_of(base) + named_segments(
            split_on(rest, '/'),
        ),
{
    reveal_strlit("/");
    reveal_strlit(".");
    let whole = join_of(base, rest);
    let parts = split_on(base, '/');
    let more = split_on(rest, '/');
    crate::text::lemma_split_nonempty(base, '/');
    crate::text::lemma_split_nonempty(rest, '/');
    let head = if base.last() == '/' { base } else { base + "/"@ };
    let opened = split_on(head, '/');
    assert(head.last() == '/');
    crate::text::lemma_split_nonempty(head, '/');
    crate::text::lemma_split_nonempty(head.drop_last(), '/');
    if base.last() != '/' {
        assert(head.drop_last() =~= base);
    }
    assert(opened == split_on(head.drop_last(), '/').push(Seq::empty()));
    assert(named_segments(opened) == named_segments(parts)) by {
        if base.last() != '/' {
            assert(opened.drop_last() =~= parts);
        }
    }
    lemma_split_concat(head, rest, '/');
    assert(whole =~= head + rest);
    let tail = opened.drop_last() + seq![opened.last() + more[0]] + more.skip(1);
    assert(opened.last() + more[0] =~= more[0]);
    assert(tail =~= opened.drop_last() + more);
    lemma_named_segments_concat(opened.drop_last(), more);
    assert(named_segments(opened.drop_last()) == named_segments(opened));
    assert(split_on(whole, '/')[0] == opened[0]);
    assert(opened[0] == parts[0]) by {
        if base.last() != '/' {
            assert(opened.drop_last() =~= parts);
        }
    }
    assert(components_of(whole) =~= components_of(base) + named_segments(more));
    assert(components_of(base) =~= components_of(whole).take(components_of(base).len() as int));
}

/// Whether some texts can be the components of a path: none is empty, only the
/// first can be the root or a dot, and no other holds a separator.
pub open spec fn proper_components(components: Seq<Seq<char>>) -> bool {
    forall|i: int|
        0 <= i < components.len() ==> {
            &&& (#[trigger] components[i]).len() > 0
            &&& i > 0 ==> components[i] != "."@
            &&& i == 0 && components[i] == "/"@ || !components[i].contains('/')
        }
}

proof fn lemma_named_segments_are_named(segments: Seq<Seq<char>>, i: int)
    requires
        0 <= i < named_segments(segments).len(),
        forall|k: int| 0 <= k < segments.len() ==> !(#[trigger] segments[k]).contains('/'),
    ensures
        named_segments(segments)[i].len() > 0,
        named_segments(segments)[i] != "."@,
        !named_segments(segments)[i].contains('/'),
    decreases segments.len(),
{
    let rest = segments.drop_last();
    let before = named_segments(rest);
    assert(!segments[segments.len() - 1].contains('/'));
    assert forall|k: int| 0 <= k < rest.len() implies !(#[trigger] rest[k]).contains('/') by {
        assert(rest[k] == segments[k]);
    }
    if i < before.len() {
        lemma_named_segments_are_named(rest, i);
    }
}

/// The components of every path are proper: no empty step, no dot but a leading
/// one, no separator but the root.
pub proof fn law_components_are_proper(path: Seq<char>)
    ensures
        proper_components(components_of(path)),
{
    reveal_strlit("/");
    reveal_strlit(".");
    let segments = split_on(path, '/');
    let names = named_segments(segments);
    let all = components_of(path);
    crate::text::law_pieces_make_up_the_text(path, '/');
    assert forall|i: int| 0 <= i < all.len() implies {
        &&& (#[trigger] all[i]).len() > 0
        &&& i > 0 ==> all[i] != "."@
        &&& i == 0 && all[i] == "/"@ || !all[i].contains('/')
    } by {
        let shift = all.len() - names.len();
        if i >= shift {
            lemma_named_segments_are_named(segments, i - shift);
        } else if !absolute(path) {
            assert(all[i] == "."@);
            assert(!"."@.contains('/'));
        }
    }
}

/// A path that is built from its components has exactly these components, in
/// this order: none is lost, split or joined with another.
pub proof fn law_paths_are_made_of_their_components(components: Seq<Seq<char>>)
    requires
        proper_components(components),
    ensures
        components_of(path_of(components)) == components,
    decreases components.len(),
{
    reveal_strlit("/");
    reveal_strlit(".");
    let path = path_of(components);
    if components.len() == 0 {
        reveal_with_fuel(named_segments, 2);
        assert(split_on(path, '/') =~= seq![Seq::<char>::empty()]);
        assert(seq![Seq::<char>::empty()].drop_last() =~= Seq::empty());
        assert(components_of(path) =~= components);
    } else {
        let last = components.last();
        assert(components[components.len() - 1] == last);
        let before = components.drop_last();
        assert forall|i: int| 0 <= i < before.len() implies {
            &&& (#[trigger] before[i]).len() > 0
            &&& i > 0 ==> before[i] != "."@
            &&& i == 0 && before[i] == "/"@ || !before[i].contains('/')
        } by {
            assert(before[i] == components[i]);
        }
        law_paths_are_made_of_their_components(before);
        if components.len() == 1 {
            assert(path == last);
            assert(components =~= seq![last]);
            reveal_with_fuel(named_segments, 3);
            if last == "/"@ {
                reveal_with_fuel(split_on, 2);
                assert(last.drop_last() =~= Seq::empty());
                let segments = split_on(last, '/');
                assert(segments =~= seq![Seq::<char>::empty(), Seq::empty()]);
                assert(segments.drop_last() =~= seq![Seq::<char>::empty()]);
                assert(seq![Seq::<char>::empty()].drop_last() =~= Seq::empty());
                assert(components_of(path) =~= components);
            } else {
                crate::text::lemma_unsplit(last, '/');
                assert(seq![last].drop_last() =~= Seq::empty());
                if absolute(last) {
                    assert(last[0] == '/');
                    assert(last.contains('/'));
                }
                assert(components_of(path) =~= components);
            }
        } else {
            let base = path_of(before);
            if base.len() == 0 {
                law_paths_are_made_of_their_components(Seq::empty());
                assert(base =~= path_of(Seq::empty()));
                assert(false);
            }
            if absolute(last) {
                assert(last[0] == '/');
                assert(last.contains('/'));
            }
            law_join_lies_under(base, last);
            crate::text::lemma_unsplit(last, '/');
            reveal_with_fuel(named_segments, 2);
            assert(seq![last].drop_last() =~= Seq::empty());
            assert(named_segments(seq![last]) =~= seq![last]);
            assert(before + seq![last] =~= components);
        }
    }
}

/// A path that is taken apart and built up again leads through the same
/// components.
pub proof fn law_rebuilt_paths_are_the_same(path: Seq<char>)
    ensures
        components_of(path_of(components_of(path))) == components_of(path),
{
    law_components_are_proper(path);
    law_paths_are_made_of_their_components(components_of(path));
}

/// A path is shown by what leads to it: the shown path of one that lies under a
/// base, taken from that base, is the path again, and one that does not lie
/// there is shown as it is.
pub proof fn law_shown_paths_lead_back(path: Seq<char>, base: Seq<char>)
    requires
        base.len() > 0,
    ensures
        lies_under(path, base) ==> components_of(join_of(base, relative_to(path, base)))
            == components_of(path) && !absolute(relative_to(path, base)),
        !lies_under(path, base) ==> relative_to(path, base) == path,
{
    if lies_under(path, base) {
        reveal_strlit("/");
        reveal_strlit(".");
        let all = components_of(path);
        let start = components_of(base);
        let rest = all.skip(start.len() as int);
        let shown = relative_to(path, base);
        law_components_are_proper(path);
        if start.len() == 0 {
            lemma_no_components_no_path(base);
        }
        assert forall|i: int| 0 <= i < rest.len() implies (#[trigger] rest[i]).len() > 0 && rest[i]
            != "."@ && !rest[i].contains('/') by {
            assert(rest[i] == all[i + start.len()]);
        }
        law_paths_are_made_of_their_components(rest);
        if absolute(shown) {
            assert(components_of(shown)[0] == "/"@);
            assert("/"@[0] == '/');
            assert(rest[0].contains('/'));
        }
        law_join_lies_under(base, shown);
        let names = named_segments(split_on(shown, '/'));
        if split_on(shown, '/')[0] == "."@ {
            assert(components_of(shown)[0] == "."@);
        }
        assert(components_of(shown) =~= names);
        assert(start + rest =~= all);
    }
}

/// Only the empty path has no components.
proof fn lemma_no_components_no_path(path: Seq<char>)
    requires
        path.len() > 0,
    ensures
        components_of(path).len() > 0,
{
    reveal_strlit(".");
    if !absolute(path) {
        crate::text::law_pieces_make_up_the_text(path, '/');
        let segments = split_on(path, '/');
        let first = segments[0];
        if first.len() == 0 {
            assert(path[0] == '/') by {
                lemma_first_piece(path, '/');
            }
        } else if first != "."@ {
            lemma_named_segment_is_kept(segments, 0);
        }
    }
}

proof fn lemma_first_piece(s: Seq<char>, sep: char)
    requires
        s.len() > 0,
    ensures
        split_on(s, sep)[0].len() == 0 <==> s[0] == sep,
        s[0] == sep ==> split_on(s, sep).len() > 1,
    decreases s.len(),
{
    crate::text::lemma_split_nonempty(s.drop_last(), sep);
    reveal_with_fuel(split_on, 2);
    if s.len() > 1 {
        lemma_first_piece(s.drop_last(), sep);
        assert(s.drop_last()[0] == s[0]);
    } else {
        assert(s.drop_last() =~= Seq::empty());
    }
}

proof fn lemma_named_segment_is_kept(segments: Seq<Seq<char>>, i: int)
    requires
        0 <= i < segments.len(),
        segments[i].len() > 0,
        segments[i] != "."@,
    ensures
        named_segments(segments).len() > 0,
    decreases segments.len(),
{
    if i < segments.len() - 1 {
        lemma_named_segment_is_kept(segments.drop_last(), i);
    }
}

/// A path taken from a base is the base, a separator where it has none, and the
/// rest; a rest that begins at the root stands alone.
pub proof fn law_joined_paths(base: Seq<char>, rest: Seq<char>)
    ensures
        absolute(rest) ==> join_of(base, rest) == rest,
        !absolute(rest) && base.len() > 0 ==> {
            let path = join_of(base, rest);
            &&& base.is_prefix_of(path)
            &&& rest.is_suffix_of(path)
            &&& path.len() == base.len() + rest.len() + if base.last() == '/' {
                0int
            } else {
                1
            }
            &&& base.last() != '/' ==> path[base.len() as int] == '/'
        },
{
    reveal_strlit("/");
    if !absolute(rest) && base.len() > 0 {
        let path = join_of(base, rest);
        assert(path.take(base.len() as int) =~= base);
        assert(path.subrange(path.len() - rest.len(), path.len() as int) =~= rest);
    }
}

/// The anchor of a pattern is made of its components up to the first with a
/// wildcard: all of them are plain, and the next one, if there is one, is not.
pub proof fn law_anchors_stop_at_the_first_wildcard(components: Seq<Seq<char>>)
    ensures
        plain_prefix(components).is_prefix_of(components),
        forall|i: int|
            0 <= i < plain_prefix(components).len() ==> !(#[trigger] components[i]).contains('*')
                && !components[i].contains('?') && !components[i].contains('['),
        plain_prefix(components).len() < components.len() ==> {
            let next = components[plain_prefix(components).len() as int];
            next.contains('*') || next.contains('?') || next.contains('[')
        },
    decreases components.len(),
{
    if components.len() > 0 {
        let rest = components.drop_last();
        let before = plain_prefix(rest);
        law_anchors_stop_at_the_first_wildcard(rest);
        let prefix = plain_prefix(components);
        assert(components.take(prefix.len() as int) =~= prefix);
        assert forall|i: int| 0 <= i < prefix.len() implies !(#[trigger] components[i]).contains('*')
            && !components[i].contains('?') && !components[i].contains('[') by {
            if i < before.len() {
                assert(rest[i] == components[i]);
            }
        }
        if prefix.len() < components.len() && before.len() < rest.len() {
            assert(rest[before.len() as int] == components[before.len() as int]);
        }
    }
}

/// Lying under is what the word says: a path lies under itself, and under
/// whatever its base lies under.
pub proof fn law_lying_under_is_an_order(path: Seq<char>, base: Seq<char>, root: Seq<char>)
    ensures
        lies_under(path, path),
        lies_under(path, base) && lies_under(base, root) ==> lies_under(path, root),
        lies_under(path, base) ==> components_of(base).len() <= components_of(path).len(),
{
    let a = components_of(path);
    assert(a.take(a.len() as int) =~= a);
    if lies_under(path, base) && lies_under(base, root) {
        let b = components_of(base);
        let c = components_of(root);
        assert(a.take(c.len() as int) =~= b.take(c.len() as int));
    }
}

proof fn lemma_named_segments_hold(segments: Seq<Seq<char>>, name: Seq<char>)
    requires
        name.len() > 0,
        name != "."@,
    ensures
        named_segments(segments).contains(name) <==> segments.contains(name),
    decreases segments.len(),
{
    if segments.len() > 0 {
        let rest = segments.drop_last();
        let before = named_segments(rest);
        let all = named_segments(segments);
        lemma_named_segments_hold(rest, name);
        if segments.contains(name) {
            let k = choose|k: int| 0 <= k < segments.len() && segments[k] == name;
            if k < rest.len() {
                assert(rest[k] == name);
                let j = choose|j: int| 0 <= j < before.len() && before[j] == name;
                assert(all[j] == name);
            } else {
                assert(all[all.len() - 1] == name);
            }
        }
        if all.contains(name) {
            let j = choose|j: int| 0 <= j < all.len() && all[j] == name;
            if j < before.len() {
                assert(before[j] == name);
                let k = choose|k: int| 0 <= k < rest.len() && rest[k] == name;
                assert(segments[k] == name);
            } else {
                assert(segments[segments.len() - 1] == name);
            }
        }
    }
}

/// A path descends exactly where it does not begin at the root and none of what
/// stands between its separators is `..`.
pub proof fn law_descending_paths_do_not_climb(path: Seq<char>)
    ensures
        descends(path) <==> !absolute(path) && !split_on(path, '/').contains(".."@),
{
    reveal_strlit("/");
    reveal_strlit(".");
    reveal_strlit("..");
    assert(".."@.len() == 2 && "."@.len() == 1 && "/"@.len() == 1);
    let segments = split_on(path, '/');
    let names = named_segments(segments);
    let all = components_of(path);
    let shift = all.len() - names.len();
    lemma_named_segments_hold(segments, ".."@);
    crate::text::law_pieces_make_up_the_text(path, '/');
    if descends(path) {
        if absolute(path) {
            assert(all[0] == "/"@);
        }
        if names.contains(".."@) {
            let k = choose|k: int| 0 <= k < names.len() && names[k] == ".."@;
            assert(all[shift + k] == ".."@);
        }
    }
    if !absolute(path) && !segments.contains(".."@) {
        assert forall|i: int| 0 <= i < all.len() implies (#[trigger] all[i]) != "/"@ && all[i]
            != ".."@ by {
            if i >= shift {
                lemma_named_segments_are_named(segments, i - shift);
                assert(all[i] == names[i - shift]);
                if all[i] == "/"@ {
                    assert("/"@[0] == '/');
                    assert(all[i].contains('/'));
                }
                if all[i] == ".."@ {
                    assert(names.contains(".."@));
                }
            } else {
                assert(all[i] == "."@);
                assert("."@[0] == '.' && "/"@[0] == '/');
            }
        }
    }
}

} // verus!
