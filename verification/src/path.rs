//! Unix paths as texts: their components, how one lies within another, and their
//! form without `.` and `..`.
use crate::text::{
    ascii_lower, cat2, cat3, char_position, ends_with, join, joined, lowered, same, split, split_on,
    starts_with, texts,
};
use vstd::prelude::*;

verus! {

/// Whether a path starts at the root.
pub open spec fn is_absolute_path(s: Seq<char>) -> bool {
    s.len() > 0 && s[0] == '/'
}

/// Whether a piece of a path names something: it is neither empty nor `.`.
pub open spec fn is_name(p: Seq<char>) -> bool {
    p.len() > 0 && p != seq!['.']
}

/// The names of a path, in order. A `..` counts as a name.
pub open spec fn names(s: Seq<char>) -> Seq<Seq<char>> {
    split_on(s, '/').filter(|p: Seq<char>| is_name(p))
}

/// The components of a path: the root where the path is absolute, a leading `.`
/// where it is not, and the names.
pub open spec fn components(s: Seq<char>) -> Seq<Seq<char>> {
    if is_absolute_path(s) {
        seq![seq!['/']] + names(s)
    } else if split_on(s, '/')[0] == seq!['.'] {
        seq![seq!['.']] + names(s)
    } else {
        names(s)
    }
}

/// Whether two paths have the same components.
pub open spec fn same_path(a: Seq<char>, b: Seq<char>) -> bool {
    components(a) == components(b)
}

/// Whether a path is another one or lies below it, by whole components.
pub open spec fn lies_within(path: Seq<char>, root: Seq<char>) -> bool {
    components(root).is_prefix_of(components(path))
}

/// A path taken from a directory.
pub open spec fn joined_path(base: Seq<char>, path: Seq<char>) -> Seq<char> {
    if is_absolute_path(path) {
        path
    } else if base.len() > 0 && base.last() != '/' {
        base + seq!['/'] + path
    } else {
        base + path
    }
}

/// The names once each `..` has taken back the name before it, if there is one.
pub open spec fn resolved(parts: Seq<Seq<char>>) -> Seq<Seq<char>>
    decreases parts.len(),
{
    if parts.len() == 0 {
        Seq::empty()
    } else {
        let head = resolved(parts.drop_last());
        if parts.last() == seq!['.', '.'] {
            if head.len() > 0 {
                head.drop_last()
            } else {
                head
            }
        } else {
            head.push(parts.last())
        }
    }
}

/// The path with the given names.
pub open spec fn path_text(absolute: bool, parts: Seq<Seq<char>>) -> Seq<char> {
    if absolute {
        seq!['/'] + joined(parts, seq!['/'])
    } else {
        joined(parts, seq!['/'])
    }
}

/// A path without `.` and `..`, taken from the current directory where it is not
/// absolute.
pub open spec fn normalized_path(path: Seq<char>, current_dir: Seq<char>) -> Seq<char> {
    let whole = if is_absolute_path(path) {
        path
    } else {
        joined_path(current_dir, path)
    };
    path_text(is_absolute_path(whole), resolved(names(whole)))
}

/// The last component of a path where it is a proper name.
pub open spec fn file_name_of(s: Seq<char>) -> Option<Seq<char>> {
    let parts = components(s);
    if parts.len() == 0 {
        None
    } else {
        let last = parts.last();
        if last == seq!['/'] || last == seq!['.'] || last == seq!['.', '.'] {
            None
        } else {
            Some(last)
        }
    }
}

/// Whether a path starts at the root.
pub fn is_absolute(s: &str) -> (r: bool)
    ensures
        r == is_absolute_path(s@),
{
    proof {
        reveal_strlit("/");
        assert("/"@ =~= seq!['/']);
        if is_absolute_path(s@) {
            assert("/"@ =~= s@.take(1));
            assert("/"@.is_prefix_of(s@));
        }
        if "/"@.is_prefix_of(s@) {
            assert(s@.subrange(0, 1)[0] == '/');
        }
    }
    starts_with(s, "/")
}

fn named(p: &str) -> (r: bool)
    ensures
        r == is_name(p@),
{
    proof {
        reveal_strlit(".");
        assert("."@ =~= seq!['.']);
    }
    !p.is_empty() && !same(p, ".")
}

/// The names of a path, in order.
pub fn path_names(s: &str) -> (r: Vec<String>)
    ensures
        texts(r@) == names(s@),
{
    let ghost keep = |p: Seq<char>| is_name(p);
    let pieces = split(s, '/');
    let mut r: Vec<String> = Vec::new();
    let mut i: usize = 0;
    proof {
        reveal(Seq::filter);
        assert(texts(r@) =~= texts(pieces@).take(0).filter(keep));
    }
    while i < pieces.len()
        invariant
            i <= pieces@.len(),
            keep == (|p: Seq<char>| is_name(p)),
            texts(r@) == texts(pieces@).take(i as int).filter(keep),
        decreases pieces@.len() - i,
    {
        let ghost before = r@;
        let ghost piece = texts(pieces@)[i as int];
        proof {
            assert(texts(pieces@).take(i + 1) =~= texts(pieces@).take(i as int).push(piece));
            texts(pieces@).take(i as int).lemma_filter_push(piece, keep);
        }
        if named(pieces[i].as_str()) {
            r.push(pieces[i].clone());
            assert(texts(r@) =~= texts(before).push(piece));
        }
        i = i + 1;
    }
    assert(texts(pieces@).take(i as int) =~= texts(pieces@));
    r
}

/// The components of a path, in order.
pub fn path_components(s: &str) -> (r: Vec<String>)
    ensures
        texts(r@) == components(s@),
{
    let pieces = split(s, '/');
    proof {
        reveal_strlit(".");
        reveal_strlit("/");
        assert("."@ =~= seq!['.']);
        assert("/"@ =~= seq!['/']);
        assert(texts(pieces@).len() == pieces@.len());
        lemma_split_nonempty(s@, '/');
        assert(texts(pieces@)[0] == pieces@[0]@);
    }
    let mut rest = path_names(s);
    let mut r: Vec<String> = Vec::new();
    if is_absolute(s) {
        r.push("/".to_owned());
        assert(texts(r@) =~= seq![seq!['/']]);
    } else if same(pieces[0].as_str(), ".") {
        r.push(".".to_owned());
        assert(texts(r@) =~= seq![seq!['.']]);
    }
    let ghost head = r@;
    let ghost tail = rest@;
    r.append(&mut rest);
    assert(texts(r@) =~= texts(head) + texts(tail));
    assert(texts(r@) =~= components(s@));
    r
}

proof fn lemma_split_nonempty(s: Seq<char>, sep: char)
    ensures
        split_on(s, sep).len() > 0,
{
}

/// Whether two lists hold the same texts, as far as the first one goes.
fn is_prefix(a: &Vec<String>, b: &Vec<String>) -> (r: bool)
    ensures
        r == texts(a@).is_prefix_of(texts(b@)),
{
    if a.len() > b.len() {
        return false;
    }
    let mut i: usize = 0;
    while i < a.len()
        invariant
            i <= a@.len() <= b@.len(),
            forall|k: int| 0 <= k < i ==> texts(a@)[k] == #[trigger] texts(b@)[k],
        decreases a@.len() - i,
    {
        if !same(a[i].as_str(), b[i].as_str()) {
            proof {
                assert(texts(a@)[i as int] != texts(b@)[i as int]);
                if texts(a@).is_prefix_of(texts(b@)) {
                    assert(texts(b@).subrange(0, a@.len() as int)[i as int] == texts(
                        b@,
                    )[i as int]);
                }
            }
            return false;
        }
        i = i + 1;
    }
    assert(texts(a@) =~= texts(b@).subrange(0, a@.len() as int));
    true
}

/// Whether a path is another one or lies below it.
pub fn is_within(path: &str, root: &str) -> (r: bool)
    ensures
        r == lies_within(path@, root@),
{
    let a = path_components(root);
    let b = path_components(path);
    is_prefix(&a, &b)
}

/// Whether two paths have the same components.
pub fn paths_equal(a: &str, b: &str) -> (r: bool)
    ensures
        r == same_path(a@, b@),
{
    let x = path_components(a);
    let y = path_components(b);
    let r = x.len() == y.len() && is_prefix(&x, &y);
    proof {
        if same_path(a@, b@) {
            assert(texts(x@).len() == texts(y@).len());
            assert(texts(y@).subrange(0, texts(x@).len() as int) =~= texts(x@));
        }
        if r {
            assert(texts(x@).len() == texts(y@).len());
            assert(texts(y@).subrange(0, texts(x@).len() as int) =~= texts(y@));
        }
    }
    r
}

/// Whether a path stands in a list of paths.
pub fn contains_path(list: &Vec<String>, path: &str) -> (r: bool)
    ensures
        r == exists|i: int| 0 <= i < list@.len() && same_path(#[trigger] list@[i]@, path@),
{
    let mut i: usize = 0;
    while i < list.len()
        invariant
            i <= list@.len(),
            forall|k: int| 0 <= k < i ==> !same_path(#[trigger] list@[k]@, path@),
        decreases list@.len() - i,
    {
        if paths_equal(list[i].as_str(), path) {
            return true;
        }
        i = i + 1;
    }
    false
}

/// A path taken from a directory.
pub fn join_path(base: &str, path: &str) -> (r: String)
    ensures
        r@ == joined_path(base@, path@),
{
    proof {
        reveal_strlit("/");
        assert("/"@ =~= seq!['/']);
        if "/"@.is_suffix_of(base@) {
            assert(base@.last() == "/"@[0]);
        } else if base@.len() > 0 && base@.last() == '/' {
            assert(base@.subrange(base@.len() - 1, base@.len() as int) =~= "/"@);
        }
    }
    if is_absolute(path) {
        path.to_owned()
    } else if !base.is_empty() && !ends_with(base, "/") {
        cat3(base, "/", path)
    } else {
        cat2(base, path)
    }
}

/// A path without `.` and `..`, taken from the current directory where it is not
/// absolute.
pub fn normalize_path(path: &str, current_dir: &str) -> (r: String)
    ensures
        r@ == normalized_path(path@, current_dir@),
{
    let whole = if is_absolute(path) {
        path.to_owned()
    } else {
        join_path(current_dir, path)
    };
    let parts = path_names(whole.as_str());
    let mut stack: Vec<String> = Vec::new();
    let mut i: usize = 0;
    proof {
        assert(texts(parts@).take(0) =~= Seq::<Seq<char>>::empty());
        assert(texts(stack@) =~= Seq::<Seq<char>>::empty());
        reveal_strlit("..");
        assert(".."@ =~= seq!['.', '.']);
        reveal_strlit("/");
        assert("/"@ =~= seq!['/']);
    }
    while i < parts.len()
        invariant
            i <= parts@.len(),
            ".."@ == seq!['.', '.'],
            texts(stack@) == resolved(texts(parts@).take(i as int)),
        decreases parts@.len() - i,
    {
        let ghost before = stack@;
        proof {
            let t = texts(parts@).take(i + 1);
            assert(t.drop_last() =~= texts(parts@).take(i as int));
            assert(t.last() == parts@[i as int]@);
        }
        if same(parts[i].as_str(), "..") {
            if stack.len() > 0 {
                let _ = stack.pop();
                assert(texts(stack@) =~= texts(before).drop_last());
            }
        } else {
            stack.push(parts[i].clone());
            assert(texts(stack@) =~= texts(before).push(parts@[i as int]@));
        }
        i = i + 1;
    }
    assert(texts(parts@).take(i as int) =~= texts(parts@));
    let body = join(&stack, "/");
    if is_absolute(whole.as_str()) {
        cat2("/", body.as_str())
    } else {
        body
    }
}

/// The last component of a path where it is a proper name.
pub fn file_name(s: &str) -> (r: Option<String>)
    ensures
        match r {
            Some(n) => file_name_of(s@) == Some(n@),
            None => file_name_of(s@) is None,
        },
{
    let mut parts = path_components(s);
    proof {
        reveal_strlit(".");
        reveal_strlit("..");
        reveal_strlit("/");
        assert("."@ =~= seq!['.']);
        assert(".."@ =~= seq!['.', '.']);
        assert("/"@ =~= seq!['/']);
        if parts@.len() > 0 {
            assert(texts(parts@).last() == parts@.last()@);
        }
    }
    match parts.pop() {
        None => None,
        Some(last) => {
            if same(last.as_str(), "/") || same(last.as_str(), ".") || same(last.as_str(), "..") {
                None
            } else {
                Some(last)
            }
        },
    }
}

/// What is left of the names once each `..` has been taken holds no `..`, and
/// names only.
pub proof fn lemma_resolved_is_plain(parts: Seq<Seq<char>>)
    requires
        forall|i: int| 0 <= i < parts.len() ==> is_name(#[trigger] parts[i]),
    ensures
        forall|i: int|
            0 <= i < resolved(parts).len() ==> is_name(#[trigger] resolved(parts)[i])
                && resolved(parts)[i] != seq!['.', '.'],
    decreases parts.len(),
{
    if parts.len() > 0 {
        let head = parts.drop_last();
        assert forall|i: int| 0 <= i < head.len() implies is_name(#[trigger] head[i]) by {
            assert(head[i] == parts[i]);
        }
        lemma_resolved_is_plain(head);
        assert(is_name(parts[parts.len() - 1]));
        let before = resolved(head);
        let after = resolved(parts);
        assert forall|i: int| 0 <= i < after.len() implies is_name(#[trigger] after[i]) && after[i]
            != seq!['.', '.'] by {
            if i < before.len() {
                assert(after[i] == before[i]);
            }
        }
    }
}

/// Names without `..` resolve to themselves.
pub proof fn lemma_plain_resolves_to_itself(parts: Seq<Seq<char>>)
    requires
        forall|i: int| 0 <= i < parts.len() ==> #[trigger] parts[i] != seq!['.', '.'],
    ensures
        resolved(parts) == parts,
    decreases parts.len(),
{
    if parts.len() > 0 {
        let head = parts.drop_last();
        assert forall|i: int| 0 <= i < head.len() implies #[trigger] head[i] != seq!['.', '.'] by {
            assert(head[i] == parts[i]);
        }
        lemma_plain_resolves_to_itself(head);
        assert(parts[parts.len() - 1] == parts.last());
        assert(head.push(parts.last()) =~= parts);
    } else {
        assert(parts =~= Seq::<Seq<char>>::empty());
    }
}

proof fn lemma_position_of_split(a: Seq<char>, b: Seq<char>, sep: char)
    requires
        !a.contains(sep),
    ensures
        crate::text::char_position(a + seq![sep] + b, sep) == a.len(),
    decreases a.len(),
{
    let s = a + seq![sep] + b;
    if a.len() > 0 {
        assert(a.contains(a[0]));
        assert(s[0] == a[0]);
        assert(s.drop_first() =~= a.drop_first() + seq![sep] + b);
        assert(!a.drop_first().contains(sep)) by {
            if a.drop_first().contains(sep) {
                let i = a.drop_first().index_of(sep);
                assert(a[i + 1] == sep);
            }
        }
        lemma_position_of_split(a.drop_first(), b, sep);
    } else {
        assert(s[0] == sep);
    }
}

proof fn lemma_position_without(a: Seq<char>, sep: char)
    requires
        !a.contains(sep),
    ensures
        crate::text::char_position(a, sep) == a.len(),
    decreases a.len(),
{
    if a.len() > 0 {
        assert(a.contains(a[0]));
        assert(!a.drop_first().contains(sep)) by {
            if a.drop_first().contains(sep) {
                let i = a.drop_first().index_of(sep);
                assert(a[i + 1] == sep);
            }
        }
        lemma_position_without(a.drop_first(), sep);
    }
}

/// The first separator ends the first piece.
proof fn lemma_split_first(a: Seq<char>, b: Seq<char>, sep: char)
    requires
        !a.contains(sep),
    ensures
        split_on(a + seq![sep] + b, sep) == seq![a] + split_on(b, sep),
{
    let s = a + seq![sep] + b;
    lemma_position_of_split(a, b, sep);
    assert(s.take(a.len() as int) =~= a);
    assert(s.skip(a.len() as int + 1) =~= b);
}

proof fn lemma_join_first(parts: Seq<Seq<char>>, sep: Seq<char>)
    requires
        parts.len() >= 2,
    ensures
        joined(parts, sep) == parts[0] + sep + joined(parts.drop_first(), sep),
    decreases parts.len(),
{
    if parts.len() == 2 {
        assert(parts.drop_last() =~= seq![parts[0]]);
        assert(parts.drop_first() =~= seq![parts[1]]);
        assert(joined(parts, sep) == joined(parts.drop_last(), sep) + sep + parts.last());
        assert(joined(parts.drop_last(), sep) == parts[0]);
        assert(joined(parts.drop_first(), sep) == parts[1]);
    } else {
        lemma_join_first(parts.drop_last(), sep);
        let rest = parts.drop_first();
        assert(parts.drop_last().drop_first() =~= rest.drop_last());
        assert(rest.last() == parts.last());
        assert(joined(rest, sep) == joined(rest.drop_last(), sep) + sep + rest.last());
        assert(parts[0] + sep + joined(rest.drop_last(), sep) + sep + parts.last() =~= parts[0]
            + sep + (joined(rest.drop_last(), sep) + sep + parts.last()));
    }
}

/// Parts without the separator come back from being joined and split.
pub proof fn lemma_split_of_joined(parts: Seq<Seq<char>>, sep: char)
    requires
        parts.len() > 0,
        forall|i: int| 0 <= i < parts.len() ==> !(#[trigger] parts[i]).contains(sep),
    ensures
        split_on(joined(parts, seq![sep]), sep) == parts,
    decreases parts.len(),
{
    assert(!parts[0].contains(sep));
    if parts.len() == 1 {
        lemma_position_without(parts[0], sep);
        assert(split_on(parts[0], sep) =~= parts);
    } else {
        let rest = parts.drop_first();
        assert forall|i: int| 0 <= i < rest.len() implies !(#[trigger] rest[i]).contains(sep) by {
            assert(rest[i] == parts[i + 1]);
        }
        lemma_join_first(parts, seq![sep]);
        lemma_split_first(parts[0], joined(rest, seq![sep]), sep);
        lemma_split_of_joined(rest, sep);
        assert(seq![parts[0]] + rest =~= parts);
    }
}

/// No piece of a split text holds the separator.
proof fn lemma_pieces_without_separator(s: Seq<char>, sep: char)
    ensures
        forall|i: int|
            0 <= i < split_on(s, sep).len() ==> !(#[trigger] split_on(s, sep)[i]).contains(sep),
    decreases s.len(),
{
    let at = crate::text::char_position(s, sep) as int;
    lemma_before_position(s, sep);
    if 0 <= at < s.len() {
        lemma_pieces_without_separator(s.skip(at + 1), sep);
        let rest = split_on(s.skip(at + 1), sep);
        let all = split_on(s, sep);
        assert forall|i: int| 0 <= i < all.len() implies !(#[trigger] all[i]).contains(sep) by {
            if i == 0 {
                assert(all[0] == s.take(at));
            } else {
                assert(all[i] == rest[i - 1]);
            }
        }
    } else {
        assert(split_on(s, sep)[0] == s);
        assert(s.take(s.len() as int) =~= s);
    }
}

proof fn lemma_before_position(s: Seq<char>, c: char)
    ensures
        crate::text::char_position(s, c) <= s.len(),
        !s.take(crate::text::char_position(s, c) as int).contains(c),
    decreases s.len(),
{
    let at = crate::text::char_position(s, c) as int;
    if s.len() > 0 && s[0] != c {
        lemma_before_position(s.drop_first(), c);
        assert forall|i: int| 0 <= i < at implies s.take(at)[i] != c by {
            if i > 0 {
                let t = s.drop_first().take(at - 1);
                assert(t[i - 1] == s[i]);
                assert(t.contains(t[i - 1]));
            }
        }
    }
}

/// The names of an absolute path that was written from names are those names.
pub proof fn lemma_names_of_path_text(parts: Seq<Seq<char>>)
    requires
        forall|i: int|
            0 <= i < parts.len() ==> is_name(#[trigger] parts[i]) && !parts[i].contains('/'),
    ensures
        is_absolute_path(path_text(true, parts)),
        names(path_text(true, parts)) == parts,
{
    let keep = |p: Seq<char>| is_name(p);
    let body = joined(parts, seq!['/']);
    let empty = Seq::<char>::empty();
    assert(path_text(true, parts) =~= empty + seq!['/'] + body);
    lemma_split_first(empty, body, '/');
    lemma_filter_none(keep);
    Seq::filter_distributes_over_add(seq![empty], split_on(body, '/'), keep);
    if parts.len() == 0 {
        assert(body =~= empty);
        lemma_position_without(empty, '/');
        assert(split_on(body, '/') =~= seq![empty]);
    } else {
        lemma_split_of_joined(parts, '/');
        lemma_filter_all(parts);
    }
    assert(names(path_text(true, parts)) =~= parts);
}

proof fn lemma_filter_none(keep: spec_fn(Seq<char>) -> bool)
    requires
        !keep(Seq::empty()),
    ensures
        seq![Seq::<char>::empty()].filter(keep) == Seq::<Seq<char>>::empty(),
{
    let none = Seq::<Seq<char>>::empty();
    assert(none.filter(keep) =~= none) by {
        reveal(Seq::filter);
    }
    none.lemma_filter_push(Seq::empty(), keep);
    assert(none.push(Seq::empty()) =~= seq![Seq::<char>::empty()]);
}

proof fn lemma_filter_all(parts: Seq<Seq<char>>)
    requires
        forall|i: int| 0 <= i < parts.len() ==> is_name(#[trigger] parts[i]),
    ensures
        parts.filter(|p: Seq<char>| is_name(p)) == parts,
    decreases parts.len(),
{
    reveal(Seq::filter);
    if parts.len() > 0 {
        let head = parts.drop_last();
        assert forall|i: int| 0 <= i < head.len() implies is_name(#[trigger] head[i]) by {
            assert(head[i] == parts[i]);
        }
        lemma_filter_all(head);
        assert(is_name(parts[parts.len() - 1]));
        assert(head.push(parts.last()) =~= parts);
    } else {
        assert(parts =~= Seq::<Seq<char>>::empty());
    }
}

proof fn lemma_names_are_names(s: Seq<char>)
    ensures
        forall|i: int|
            0 <= i < names(s).len() ==> is_name(#[trigger] names(s)[i]) && !names(s)[i].contains(
                '/',
            ),
{
    let keep = |p: Seq<char>| is_name(p);
    let pieces = split_on(s, '/');
    lemma_pieces_without_separator(s, '/');
    broadcast use {Seq::lemma_filter_pred, Seq::lemma_filter_contains_rev};
    assert forall|i: int| 0 <= i < names(s).len() implies is_name(#[trigger] names(s)[i])
        && !names(s)[i].contains('/') by {
        assert(keep(names(s)[i]));
        assert(pieces.filter(keep).contains(names(s)[i]));
        assert(pieces.contains(names(s)[i]));
        let j = pieces.index_of(names(s)[i]);
        assert(!pieces[j].contains('/'));
    }
}

proof fn lemma_resolved_members(parts: Seq<Seq<char>>)
    ensures
        forall|i: int|
            0 <= i < resolved(parts).len() ==> parts.contains(#[trigger] resolved(parts)[i]),
    decreases parts.len(),
{
    if parts.len() > 0 {
        let head = parts.drop_last();
        lemma_resolved_members(head);
        let before = resolved(head);
        let after = resolved(parts);
        assert forall|i: int| 0 <= i < after.len() implies parts.contains(#[trigger] after[i]) by {
            if i < before.len() {
                assert(after[i] == before[i]);
                assert(head.contains(before[i]));
                let j = head.index_of(before[i]);
                assert(parts[j] == before[i]);
            } else {
                assert(parts[parts.len() - 1] == after[i]);
            }
        }
    }
}

/// A path in normal form is absolute where the path was, and none of its
/// components is `.` or `..`: it cannot climb out of a directory it lies within.
pub proof fn law_normal_form_has_no_dots(path: Seq<char>, current_dir: Seq<char>)
    requires
        is_absolute_path(path),
    ensures
        is_absolute_path(normalized_path(path, current_dir)),
        names(normalized_path(path, current_dir)) == resolved(names(path)),
        forall|i: int|
            0 <= i < components(normalized_path(path, current_dir)).len() ==> {
                &&& #[trigger] components(normalized_path(path, current_dir))[i] != seq!['.']
                &&& components(normalized_path(path, current_dir))[i] != seq!['.', '.']
            },
{
    let parts = resolved(names(path));
    let n = normalized_path(path, current_dir);
    lemma_names_are_names(path);
    lemma_resolved_is_plain(names(path));
    lemma_resolved_members(names(path));
    assert forall|i: int| 0 <= i < parts.len() implies is_name(#[trigger] parts[i])
        && !parts[i].contains('/') by {
        assert(names(path).contains(parts[i]));
        let j = names(path).index_of(parts[i]);
        assert(is_name(names(path)[j]));
    }
    lemma_names_of_path_text(parts);
    assert forall|i: int| 0 <= i < components(n).len() implies {
        &&& #[trigger] components(n)[i] != seq!['.']
        &&& components(n)[i] != seq!['.', '.']
    } by {
        if i == 0 {
            assert(components(n)[0] == seq!['/']);
            assert(seq!['/'][0] != seq!['.'][0]);
            assert(seq!['/'].len() != seq!['.', '.'].len());
        } else {
            assert(components(n)[i] == parts[i - 1]);
            assert(is_name(parts[i - 1]));
        }
    }
}

/// Bringing an absolute path in normal form twice is doing it once.
pub proof fn law_normalizing_twice(path: Seq<char>, current_dir: Seq<char>)
    requires
        is_absolute_path(path),
    ensures
        normalized_path(normalized_path(path, current_dir), current_dir) == normalized_path(
            path,
            current_dir,
        ),
{
    law_normal_form_has_no_dots(path, current_dir);
    lemma_names_are_names(path);
    lemma_resolved_is_plain(names(path));
    lemma_plain_resolves_to_itself(resolved(names(path)));
}

/// Whether a text can name a file in a directory.
pub open spec fn is_plain_name(n: Seq<char>) -> bool {
    &&& n.len() > 0
    &&& !n.contains('/')
    &&& n != seq!['.']
    &&& n != seq!['.', '.']
}

/// Whether a path is a name, alone or behind a directory part.
pub open spec fn ends_in_name(path: Seq<char>, n: Seq<char>) -> bool {
    path == n || {
        let k = path.len() - n.len();
        k > 0 && path.skip(k) == n && path[k - 1] == '/'
    }
}

proof fn lemma_last_piece(path: Seq<char>, n: Seq<char>)
    requires
        is_plain_name(n),
        ends_in_name(path, n),
    ensures
        split_on(path, '/').len() > 0,
        split_on(path, '/').last() == n,
    decreases path.len(),
{
    let at = char_position(path, '/') as int;
    lemma_before_position(path, '/');
    if path == n {
        lemma_position_without(n, '/');
        assert(split_on(path, '/') =~= seq![n]);
    } else {
        let k = path.len() - n.len();
        if at > k - 1 {
            assert(path.take(at)[k - 1] == '/');
            assert(path.take(at).contains('/'));
        }
        let rest = path.skip(at + 1);
        if at == k - 1 {
            assert(rest == n);
        } else {
            let m = k - at - 1;
            assert(rest.skip(m) =~= path.skip(k));
            assert(rest[m - 1] == path[k - 1]);
            assert(rest.len() - n.len() == m);
        }
        lemma_last_piece(rest, n);
        let all = split_on(path, '/');
        assert(all == seq![path.take(at)] + split_on(rest, '/'));
        assert(all.last() == split_on(rest, '/').last());
    }
}

/// A plain name, alone or behind a directory part, is the file name.
pub proof fn lemma_file_name_behind_directory(path: Seq<char>, n: Seq<char>)
    requires
        is_plain_name(n),
        ends_in_name(path, n),
    ensures
        file_name_of(path) == Some(n),
{
    let keep = |p: Seq<char>| is_name(p);
    let pieces = split_on(path, '/');
    lemma_last_piece(path, n);
    assert(pieces =~= pieces.drop_last().push(n));
    pieces.drop_last().lemma_filter_push(n, keep);
    assert(names(path).last() == n);
    assert(components(path).last() == n);
    if n == seq!['/'] {
        assert(n[0] == '/');
        assert(n.contains('/'));
    }
}

proof fn lemma_position_lowered(s: Seq<char>)
    ensures
        char_position(lowered(s), '/') == char_position(s, '/'),
    decreases s.len(),
{
    if s.len() > 0 {
        assert(lowered(s).drop_first() =~= lowered(s.drop_first()));
        lemma_position_lowered(s.drop_first());
    }
}

proof fn lemma_split_lowered(s: Seq<char>)
    ensures
        split_on(lowered(s), '/') == split_on(s, '/').map_values(|p: Seq<char>| lowered(p)),
    decreases s.len(),
{
    let low = |p: Seq<char>| lowered(p);
    let at = char_position(s, '/') as int;
    lemma_position_lowered(s);
    if 0 <= at < s.len() {
        lemma_split_lowered(s.skip(at + 1));
        assert(lowered(s).skip(at + 1) =~= lowered(s.skip(at + 1)));
        assert(lowered(s).take(at) =~= lowered(s.take(at)));
    }
    assert(split_on(lowered(s), '/') =~= split_on(s, '/').map_values(low));
}

/// Lower case changes no separator and no dot.
proof fn lemma_lowered_marks(p: Seq<char>)
    ensures
        (lowered(p) == seq!['/']) == (p == seq!['/']),
        (lowered(p) == seq!['.']) == (p == seq!['.']),
        (lowered(p) == seq!['.', '.']) == (p == seq!['.', '.']),
        is_name(lowered(p)) == is_name(p),
        is_absolute_path(lowered(p)) == is_absolute_path(p),
{
    let l = lowered(p);
    assert(l.len() == p.len());
    if p.len() > 0 {
        assert(l[0] == ascii_lower(p[0]));
    }
    if p.len() > 1 {
        assert(l[1] == ascii_lower(p[1]));
    }
    if p.len() == 1 {
        assert(l =~= seq![l[0]]);
        assert(p =~= seq![p[0]]);
        assert(seq!['/'][0] == '/' && seq!['.'][0] == '.');
    }
    if p.len() == 2 {
        assert(l =~= seq![l[0], l[1]]);
        assert(p =~= seq![p[0], p[1]]);
        assert(seq!['.', '.'][0] == '.' && seq!['.', '.'][1] == '.');
    }
    assert(seq!['/'].len() == 1 && seq!['.'].len() == 1 && seq!['.', '.'].len() == 2);
}

proof fn lemma_filter_lowered(parts: Seq<Seq<char>>)
    ensures
        parts.map_values(|p: Seq<char>| lowered(p)).filter(|p: Seq<char>| is_name(p))
            == parts.filter(|p: Seq<char>| is_name(p)).map_values(|p: Seq<char>| lowered(p)),
    decreases parts.len(),
{
    let low = |p: Seq<char>| lowered(p);
    let keep = |p: Seq<char>| is_name(p);
    if parts.len() == 0 {
        reveal(Seq::filter);
        assert(parts.map_values(low).filter(keep) =~= parts.filter(keep).map_values(low));
    } else {
        let head = parts.drop_last();
        let last = parts.last();
        lemma_filter_lowered(head);
        lemma_lowered_marks(last);
        assert(parts =~= head.push(last));
        assert(parts.map_values(low) =~= head.map_values(low).push(lowered(last)));
        head.lemma_filter_push(last, keep);
        head.map_values(low).lemma_filter_push(lowered(last), keep);
        assert(parts.map_values(low).filter(keep) =~= parts.filter(keep).map_values(low));
    }
}

/// Taking the file name and lower case can be exchanged.
pub proof fn lemma_file_name_lowered(s: Seq<char>)
    ensures
        file_name_of(lowered(s)) == match file_name_of(s) {
            Some(n) => Some(lowered(n)),
            None => None,
        },
{
    let low = |p: Seq<char>| lowered(p);
    lemma_split_lowered(s);
    lemma_filter_lowered(split_on(s, '/'));
    lemma_split_nonempty(s, '/');
    lemma_lowered_marks(s);
    lemma_lowered_marks(split_on(s, '/')[0]);
    lemma_lowered_marks(seq!['/']);
    lemma_lowered_marks(seq!['.']);
    assert(components(lowered(s)) =~= components(s).map_values(low));
    if components(s).len() > 0 {
        lemma_lowered_marks(components(s).last());
    }
}

/// A path lies within another by whole names: exactly where the names of the other are
/// the first of its own.
pub proof fn law_within_goes_by_whole_names(a: Seq<Seq<char>>, b: Seq<Seq<char>>)
    requires
        forall|i: int| 0 <= i < a.len() ==> is_plain_name(#[trigger] a[i]),
        forall|i: int| 0 <= i < b.len() ==> is_plain_name(#[trigger] b[i]),
    ensures
        ({
            let path = seq!['/'] + joined(a, seq!['/']);
            let root = seq!['/'] + joined(b, seq!['/']);
            &&& lies_within(path, root) <==> b.len() <= a.len() && forall|i: int|
                0 <= i < b.len() ==> a[i] == #[trigger] b[i]
            &&& same_path(path, root) <==> a == b
        }),
{
    lemma_names_of_path_text(a);
    lemma_names_of_path_text(b);
    let path = seq!['/'] + joined(a, seq!['/']);
    let root = seq!['/'] + joined(b, seq!['/']);
    let x = components(path);
    let y = components(root);
    assert(x =~= seq![seq!['/']] + a);
    assert(y =~= seq![seq!['/']] + b);
    if lies_within(path, root) {
        assert forall|i: int| 0 <= i < b.len() implies a[i] == #[trigger] b[i] by {
            assert(y[i + 1] == x[i + 1]);
        }
    }
    if b.len() <= a.len() && forall|i: int| 0 <= i < b.len() ==> a[i] == #[trigger] b[i] {
        assert(y =~= x.subrange(0, y.len() as int));
    }
    if same_path(path, root) {
        assert(a =~= x.skip(1));
        assert(b =~= y.skip(1));
    }
}

/// A path is taken from a directory: an absolute one is itself, and any other stands
/// behind the directory with one separator between them.
pub proof fn law_paths_are_taken_from_a_directory(base: Seq<char>, path: Seq<char>)
    ensures
        path.len() > 0 && path[0] == '/' ==> joined_path(base, path) == path,
        !(path.len() > 0 && path[0] == '/') && base.len() == 0 ==> joined_path(base, path) == path,
        !(path.len() > 0 && path[0] == '/') && base.len() > 0 && base.last() == '/' ==> joined_path(
            base,
            path,
        ) == base + path,
        !(path.len() > 0 && path[0] == '/') && base.len() > 0 && base.last() != '/' ==> joined_path(
            base,
            path,
        ) == base + seq!['/'] + path,
{
    if base.len() == 0 {
        assert(base + path =~= path);
    }
}

/// A name and the `..` behind it take each other away.
pub proof fn law_double_dots_take_back(
    a: Seq<Seq<char>>,
    n: Seq<char>,
    b: Seq<Seq<char>>,
)
    requires
        n != seq!['.', '.'],
    ensures
        resolved(a.push(n).push(seq!['.', '.']) + b) == resolved(a + b),
    decreases b.len(),
{
    let whole = a.push(n).push(seq!['.', '.']) + b;
    if b.len() == 0 {
        let one = a.push(n);
        assert(whole =~= one.push(seq!['.', '.']));
        assert(whole.drop_last() =~= one);
        assert(one.drop_last() =~= a);
        assert(resolved(one) == resolved(a).push(n));
        assert(resolved(a).push(n).drop_last() =~= resolved(a));
        assert(a + b =~= a);
    } else {
        law_double_dots_take_back(a, n, b.drop_last());
        assert(whole.drop_last() =~= a.push(n).push(seq!['.', '.']) + b.drop_last());
        assert((a + b).drop_last() =~= a + b.drop_last());
        assert(whole.last() == b.last());
        assert((a + b).last() == b.last());
    }
}

/// The file name of a path is the name that stands alone or behind its last separator.
pub proof fn law_file_name_is_the_last_name(directory: Seq<char>, n: Seq<char>)
    requires
        is_plain_name(n),
    ensures
        file_name_of(n) == Some(n),
        file_name_of(directory + seq!['/'] + n) == Some(n),
{
    lemma_file_name_behind_directory(n, n);
    let path = directory + seq!['/'] + n;
    assert(path.skip(path.len() - n.len()) =~= n);
    lemma_file_name_behind_directory(path, n);
}

/// A path that is not absolute is taken from the current directory, and what comes out is
/// absolute where that directory is.
pub proof fn law_relative_paths_start_in_the_current_directory(
    path: Seq<char>,
    current_dir: Seq<char>,
    other: Seq<char>,
)
    requires
        current_dir.len() > 0,
        current_dir[0] == '/',
        !(path.len() > 0 && path[0] == '/'),
    ensures
        current_dir.last() != '/' ==> normalized_path(path, current_dir) == normalized_path(
            current_dir + seq!['/'] + path,
            other,
        ),
        current_dir.last() == '/' ==> normalized_path(path, current_dir) == normalized_path(
            current_dir + path,
            other,
        ),
        normalized_path(path, current_dir).len() > 0,
        normalized_path(path, current_dir)[0] == '/',
{
    law_paths_are_taken_from_a_directory(current_dir, path);
    let whole = joined_path(current_dir, path);
    assert(whole[0] == '/');
}

} // verus!
