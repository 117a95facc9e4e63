//! File paths as text, with `/` between components. A path that starts with
//! `/` is absolute; empty pieces and `.` pieces name nothing, except a `.` that
//! starts a relative path.

use vstd::prelude::*;
use vstd::string::*;

use crate::seqs::{first_at, first_at_bounds, first_at_is};
use crate::text::{chars_of, same, text_of, views};

verus! {

/// Selects the separator.
pub open spec fn is_slash() -> spec_fn(char) -> bool {
    |c: char| c == '/'
}

/// Where the first piece of `s` ends.
pub open spec fn slash_at(s: Seq<char>) -> int {
    first_at(s, is_slash())
}

/// Whether a piece between separators names something.
pub open spec fn is_name(piece: Seq<char>) -> bool {
    piece.len() > 0 && piece != seq!['.']
}

/// A piece as a list of names.
pub open spec fn named_piece(piece: Seq<char>) -> Seq<Seq<char>> {
    if is_name(piece) {
        seq![piece]
    } else {
        seq![]
    }
}

/// The names in `s`, in order.
pub open spec fn names(s: Seq<char>) -> Seq<Seq<char>>
    decreases s.len(),
{
    let i = slash_at(s);
    if 0 <= i < s.len() {
        named_piece(s.take(i)) + names(s.skip(i + 1))
    } else {
        named_piece(s)
    }
}

/// Whether a path is absolute.
pub open spec fn absolute(p: Seq<char>) -> bool {
    p.len() > 0 && p[0] == '/'
}

/// Whether a path starts with a `.` piece.
pub open spec fn dotted(p: Seq<char>) -> bool {
    p.len() > 0 && p[0] == '.' && (p.len() == 1 || p[1] == '/')
}

/// The component a path starts with besides its names: the root, the current
/// directory, or none.
pub open spec fn lead(p: Seq<char>) -> Seq<Seq<char>> {
    if absolute(p) {
        seq![seq!['/']]
    } else if dotted(p) {
        seq![seq!['.']]
    } else {
        seq![]
    }
}

/// The components of a path.
pub open spec fn parts(p: Seq<char>) -> Seq<Seq<char>> {
    lead(p) + names(p)
}

/// `s` from the start of its name number `n` on.
pub open spec fn tail_after(s: Seq<char>, n: int) -> Seq<char>
    decreases s.len(),
{
    let i = slash_at(s);
    if 0 <= i < s.len() {
        if !is_name(s.take(i)) {
            tail_after(s.skip(i + 1), n)
        } else if n <= 0 {
            s
        } else {
            tail_after(s.skip(i + 1), n - 1)
        }
    } else if n <= 0 && is_name(s) {
        s
    } else {
        seq![]
    }
}

/// Where the last separator of `s` stands, or -1.
pub open spec fn last_slash(s: Seq<char>) -> int
    decreases s.len(),
{
    if s.len() == 0 || s.last() == '/' {
        s.len() - 1
    } else {
        last_slash(s.drop_last())
    }
}

/// `s` up to the end of its last name.
pub open spec fn trimmed(s: Seq<char>) -> Seq<char>
    decreases s.len(),
{
    let j = last_slash(s);
    if is_name(s.skip(j + 1)) {
        s
    } else if 0 <= j < s.len() {
        trimmed(s.take(j))
    } else {
        seq![]
    }
}

/// A whole path up to the end of its last component.
pub open spec fn trimmed_path(p: Seq<char>) -> Seq<char> {
    if absolute(p) || dotted(p) {
        p.take(1) + trimmed(p.skip(1))
    } else {
        trimmed(p)
    }
}

/// What is left of `p` below the directory `dir`, if it lies there.
pub open spec fn stripped(p: Seq<char>, dir: Seq<char>) -> Option<Seq<char>> {
    if !parts(dir).is_prefix_of(parts(p)) {
        None
    } else if parts(dir).len() == 0 {
        Some(trimmed_path(p))
    } else {
        Some(trimmed(tail_after(p, names(dir).len() as int)))
    }
}

/// `p` seen from the directory `dir`.
pub open spec fn joined_path(dir: Seq<char>, p: Seq<char>) -> Seq<char> {
    if absolute(p) {
        p
    } else if dir.len() == 0 || dir.last() == '/' {
        dir + p
    } else {
        dir.push('/') + p
    }
}

/// The last component of a path, if it is a name that stands for itself.
pub open spec fn file_name_of(p: Seq<char>) -> Option<Seq<char>> {
    if names(p).len() > 0 && names(p).last() != seq!['.', '.'] {
        Some(names(p).last())
    } else {
        None
    }
}

/// Where the last dot of `s` stands, or -1.
pub open spec fn last_dot(s: Seq<char>) -> int
    decreases s.len(),
{
    if s.len() == 0 || s.last() == '.' {
        s.len() - 1
    } else {
        last_dot(s.drop_last())
    }
}

/// A file name without its extension.
pub open spec fn stem_of(name: Seq<char>) -> Seq<char> {
    if last_dot(name) <= 0 {
        name
    } else {
        name.take(last_dot(name))
    }
}

/// The extension of a file name, if it has one.
pub open spec fn extension_of(name: Seq<char>) -> Option<Seq<char>> {
    if last_dot(name) <= 0 {
        None
    } else {
        Some(name.skip(last_dot(name) + 1))
    }
}

/// `s` with every backslash turned into a separator.
pub open spec fn slashed(s: Seq<char>) -> Seq<char> {
    Seq::new(s.len(), |i: int| if s[i] == '\\' { '/' } else { s[i] })
}

proof fn slash_at_fits(s: Seq<char>)
    ensures
        0 <= slash_at(s) <= s.len(),
        slash_at(s) < s.len() ==> s[slash_at(s)] == '/',
{
    first_at_bounds(s, is_slash());
}

proof fn last_slash_fits(s: Seq<char>)
    ensures
        -1 <= last_slash(s) < s.len() || s.len() == 0 && last_slash(s) == -1,
        0 <= last_slash(s) ==> s[last_slash(s)] == '/',
        forall|j: int| last_slash(s) < j < s.len() ==> s[j] != '/',
    decreases s.len(),
{
    if s.len() > 0 && s.last() != '/' {
        last_slash_fits(s.drop_last());
        assert forall|j: int| last_slash(s) < j < s.len() implies s[j] != '/' by {
            if j < s.len() - 1 {
                assert(s.drop_last()[j] == s[j]);
            }
        }
    }
}

proof fn last_slash_is(s: Seq<char>, j: int)
    requires
        -1 <= j < s.len(),
        0 <= j ==> s[j] == '/',
        forall|k: int| j < k < s.len() ==> s[k] != '/',
    ensures
        last_slash(s) == j,
{
    last_slash_fits(s);
}

/// The names of a path that continues below a directory.
pub proof fn names_of_join(a: Seq<char>, b: Seq<char>)
    ensures
        names(a.push('/') + b) == names(a) + names(b),
    decreases a.len(),
{
    let s = a.push('/') + b;
    let i = slash_at(a);
    slash_at_fits(a);
    first_at_bounds(a, is_slash());
    if i < a.len() {
        assert forall|j: int| 0 <= j < i implies !is_slash()(#[trigger] s[j]) by {
            assert(s[j] == a[j]);
        }
        first_at_is(s, is_slash(), i);
        assert(s.take(i) =~= a.take(i));
        assert(s.skip(i + 1) =~= a.skip(i + 1).push('/') + b);
        names_of_join(a.skip(i + 1), b);
        assert(names(s) =~= names(a) + names(b));
    } else {
        assert forall|j: int| 0 <= j < a.len() implies !is_slash()(#[trigger] s[j]) by {
            assert(s[j] == a[j]);
        }
        first_at_is(s, is_slash(), a.len() as int);
        assert(s.take(a.len() as int) =~= a);
        assert(s.skip(a.len() as int + 1) =~= b);
    }
}

/// Skipping the names of a directory leaves what was joined to it.
pub proof fn tail_of_join(a: Seq<char>, b: Seq<char>, n: int)
    requires
        n >= 0,
    ensures
        tail_after(a.push('/') + b, names(a).len() + n) == tail_after(b, n),
    decreases a.len(),
{
    let s = a.push('/') + b;
    let i = slash_at(a);
    slash_at_fits(a);
    first_at_bounds(a, is_slash());
    if i < a.len() {
        assert forall|j: int| 0 <= j < i implies !is_slash()(#[trigger] s[j]) by {
            assert(s[j] == a[j]);
        }
        first_at_is(s, is_slash(), i);
        assert(s.take(i) =~= a.take(i));
        assert(s.skip(i + 1) =~= a.skip(i + 1).push('/') + b);
        tail_of_join(a.skip(i + 1), b, n);
    } else {
        assert forall|j: int| 0 <= j < a.len() implies !is_slash()(#[trigger] s[j]) by {
            assert(s[j] == a[j]);
        }
        first_at_is(s, is_slash(), a.len() as int);
        assert(s.take(a.len() as int) =~= a);
        assert(s.skip(a.len() as int + 1) =~= b);
    }
}

proof fn names_of_tail(s: Seq<char>, n: int)
    requires
        0 <= n <= names(s).len(),
    ensures
        names(tail_after(s, n)) == names(s).skip(n),
    decreases s.len(),
{
    let i = slash_at(s);
    slash_at_fits(s);
    if i < s.len() {
        let rest = s.skip(i + 1);
        if !is_name(s.take(i)) {
            assert(names(s) =~= names(rest));
            names_of_tail(rest, n);
        } else if n == 0 {
            assert(names(s).skip(0) =~= names(s));
        } else {
            names_of_tail(rest, n - 1);
            assert(names(s).skip(n) =~= names(rest).skip(n - 1));
        }
    } else {
        if n == 0 && is_name(s) {
            assert(names(s).skip(0) =~= names(s));
        } else {
            let none = Seq::<char>::empty();
            slash_at_fits(none);
            assert(names(none) =~= Seq::<Seq<char>>::empty());
            assert(names(s).skip(n) =~= Seq::<Seq<char>>::empty());
        }
    }
}

proof fn names_of_trimmed(s: Seq<char>)
    ensures
        names(trimmed(s)) == names(s),
    decreases s.len(),
{
    let j = last_slash(s);
    last_slash_fits(s);
    let piece = s.skip(j + 1);
    if !is_name(piece) {
        assert forall|k: int| 0 <= k < piece.len() implies !is_slash()(#[trigger] piece[k]) by {
            assert(piece[k] == s[j + 1 + k]);
        }
        first_at_is(piece, is_slash(), piece.len() as int);
        assert(names(piece) =~= Seq::<Seq<char>>::empty());
        if j >= 0 {
            assert(s =~= s.take(j).push('/') + piece);
            names_of_join(s.take(j), piece);
            names_of_trimmed(s.take(j));
            assert(names(s) =~= names(s.take(j)));
        } else {
            assert(piece =~= s);
            let none = Seq::<char>::empty();
            slash_at_fits(none);
            assert(names(none) =~= Seq::<Seq<char>>::empty());
        }
    }
}

/// A path that is not empty has a component.
pub proof fn some_part(p: Seq<char>)
    requires
        p.len() > 0,
    ensures
        parts(p).len() > 0,
{
    if !absolute(p) && !dotted(p) {
        let i = slash_at(p);
        slash_at_fits(p);
        first_at_bounds(p, is_slash());
        let piece = p.take(i);
        assert(piece.len() == i);
        if piece == seq!['.'] {
            assert(piece[0] == '.' && piece.len() == 1);
            assert(p[0] == piece[0]);
        }
        if i == p.len() {
            assert(piece =~= p);
        }
    }
}

/// A tail starts with a name: it is neither absolute nor dotted.
pub proof fn tail_is_relative(s: Seq<char>, n: int)
    ensures
        !absolute(tail_after(s, n)),
        !dotted(tail_after(s, n)),
    decreases s.len(),
{
    let i = slash_at(s);
    slash_at_fits(s);
    first_at_bounds(s, is_slash());
    if i < s.len() {
        if !is_name(s.take(i)) {
            tail_is_relative(s.skip(i + 1), n);
        } else if n > 0 {
            tail_is_relative(s.skip(i + 1), n - 1);
        } else {
            if s[0] == '/' {
                assert(is_slash()(s[0]));
                assert(i == 0);
                assert(false);
            }
            if dotted(s) {
                if i == 0 {
                    assert(s.take(0).len() == 0);
                } else {
                    assert(is_slash()(s[1]));
                    assert(i == 1);
                    assert(s.take(1) =~= seq!['.']);
                }
                assert(false);
            }
        }
    } else if n <= 0 && is_name(s) {
        if absolute(s) {
            assert(is_slash()(s[0]));
        }
        if dotted(s) {
            if s.len() == 1 {
                assert(s =~= seq!['.']);
            } else {
                assert(is_slash()(s[1]));
            }
        }
    }
}

pub(crate) proof fn trimming_keeps_the_start(s: Seq<char>)
    ensures
        trimmed(s).len() <= s.len(),
        trimmed(s) == s.take(trimmed(s).len() as int),
        trimmed(s).len() < s.len() && trimmed(s).len() > 0 ==> s[trimmed(s).len() as int] == '/',
    decreases s.len(),
{
    let j = last_slash(s);
    last_slash_fits(s);
    if is_name(s.skip(j + 1)) {
        assert(s.take(s.len() as int) =~= s);
    } else if 0 <= j < s.len() {
        trimming_keeps_the_start(s.take(j));
        let t = trimmed(s.take(j));
        assert(t =~= s.take(t.len() as int));
    } else {
        assert(s.take(0) =~= Seq::<char>::empty());
    }
}

/// No name holds a separator, so none is the root.
proof fn names_are_not_the_root(s: Seq<char>, k: int)
    requires
        0 <= k < names(s).len(),
    ensures
        names(s)[k] != seq!['/'],
    decreases s.len(),
{
    let i = slash_at(s);
    slash_at_fits(s);
    first_at_bounds(s, is_slash());
    let piece = s.take(i);
    if piece == seq!['/'] {
        assert(s[0] == piece[0]);
        assert(is_slash()(s[0]));
    }
    if i < s.len() {
        let before = named_piece(piece).len();
        if k >= before {
            names_are_not_the_root(s.skip(i + 1), k - before);
        }
    } else {
        assert(piece =~= s);
    }
}

proof fn names_below_the_root(s: Seq<char>)
    ensures
        names(seq!['/'] + s) == names(s),
{
    let none = Seq::<char>::empty();
    slash_at_fits(none);
    assert(names(none) =~= Seq::<Seq<char>>::empty());
    assert(seq!['/'] + s =~= none.push('/') + s);
    names_of_join(none, s);
    assert(names(none) + names(s) =~= names(s));
}

/// A path stored relative to a directory comes back as the same components when
/// it is resolved against that directory, whichever directory that is. Paths
/// with a backslash below the directory are left out: storing one turns it into
/// a separator.
pub proof fn storing_a_path_keeps_its_components(dir: Seq<char>, abs: Seq<char>)
    requires
        absolute(abs),
        !abs.contains('\\'),
    ensures
        parts(joined_path(dir, relative_to(dir, abs))) == parts(abs),
{
    if absolute(dir) {
        storing_below_the_root(dir, abs);
    } else if parts(dir).len() > 0 {
        if parts(dir).is_prefix_of(parts(abs)) {
            assert(parts(abs)[0] == seq!['/']);
            assert(parts(dir)[0] == parts(abs)[0]);
            if dotted(dir) {
                assert(parts(dir)[0] == seq!['.']);
                assert(seq!['.'][0] != seq!['/'][0]);
            } else {
                assert(parts(dir) =~= names(dir));
                names_are_not_the_root(dir, 0);
            }
        }
    } else {
        let t = trimmed(abs.skip(1));
        let rel = trimmed_path(abs);
        trimming_keeps_the_start(abs.skip(1));
        names_of_trimmed(abs.skip(1));
        assert(abs =~= seq!['/'] + abs.skip(1));
        assert(rel =~= seq!['/'] + t);
        names_below_the_root(t);
        names_below_the_root(abs.skip(1));
        assert forall|k: int| 0 <= k < rel.len() implies #[trigger] rel[k] != '\\' by {
            assert(rel[k] == abs[k]);
            assert(abs.contains(abs[k]));
        }
        assert(slashed(rel) =~= rel);
        assert(parts(dir).is_prefix_of(parts(abs)));
    }
}

proof fn storing_below_the_root(dir: Seq<char>, abs: Seq<char>)
    requires
        absolute(dir),
        absolute(abs),
        !abs.contains('\\'),
    ensures
        parts(joined_path(dir, relative_to(dir, abs))) == parts(abs),
{
    match stripped(abs, dir) {
        None => {},
        Some(rel) => {
            let n = names(dir).len() as int;
            let tail = tail_after(abs, n);
            assert(parts(dir).len() == 1 + n);
            assert(parts(dir).is_prefix_of(parts(abs)));
            assert(n <= names(abs).len());
            names_of_tail(abs, n);
            names_of_trimmed(tail);
            tail_is_relative(abs, n);
            trimming_keeps_the_start(tail);
            tail_within(abs, n);
            assert forall|k: int| 0 <= k < rel.len() implies #[trigger] rel[k] != '\\' by {
                assert(rel[k] == tail[k]);
                assert(abs.contains(tail[k]));
            }
            assert(slashed(rel) =~= rel);
            assert(names(rel) == names(abs).skip(n));
            assert forall|k: int| 0 <= k < n implies names(dir)[k] == #[trigger] names(abs)[k] by {
                assert(parts(dir)[k + 1] == parts(abs)[k + 1]);
            }
            assert(names(abs) =~= names(dir) + names(rel));
            let whole = joined_path(dir, rel);
            if dir.last() == '/' {
                let d = dir.drop_last();
                assert(dir =~= d.push('/') + Seq::<char>::empty());
                names_of_join(d, Seq::<char>::empty());
                slash_at_fits(Seq::<char>::empty());
                assert(names(Seq::<char>::empty()) =~= Seq::<Seq<char>>::empty());
                assert(names(dir) =~= names(d));
                assert(whole =~= d.push('/') + rel);
                names_of_join(d, rel);
            } else {
                names_of_join(dir, rel);
            }
            assert(names(whole) == names(abs));
            assert(whole[0] == '/');
        },
    }
}

pub(crate) proof fn tail_within(s: Seq<char>, n: int)
    ensures
        forall|k: int| 0 <= k < tail_after(s, n).len() ==> s.contains(#[trigger] tail_after(s, n)[k]),
    decreases s.len(),
{
    let i = slash_at(s);
    slash_at_fits(s);
    let t = tail_after(s, n);
    if i < s.len() {
        let rest = s.skip(i + 1);
        tail_within(rest, n);
        tail_within(rest, n - 1);
        assert forall|k: int| 0 <= k < t.len() implies s.contains(#[trigger] t[k]) by {
            if !is_name(s.take(i)) || n > 0 {
                let u = if !is_name(s.take(i)) {
                    tail_after(rest, n)
                } else {
                    tail_after(rest, n - 1)
                };
                assert(rest.contains(u[k]));
                let m = rest.index_of(t[k]);
                assert(rest[m] == s[i + 1 + m]);
            } else {
                assert(s[k] == t[k]);
            }
        }
    } else {
        assert forall|k: int| 0 <= k < t.len() implies s.contains(#[trigger] t[k]) by {
            assert(s[k] == t[k]);
        }
    }
}

/// What is stored for `abs` in a file that lives in `dir`.
pub open spec fn relative_to(dir: Seq<char>, abs: Seq<char>) -> Seq<char> {
    match stripped(abs, dir) {
        Some(rel) => slashed(rel),
        None => abs,
    }
}

fn next_slash(v: &Vec<char>, from: usize) -> (r: usize)
    requires
        from <= v@.len(),
    ensures
        from <= r <= v@.len(),
        r - from == slash_at(v@.skip(from as int)),
{
    let mut i: usize = from;
    while i < v.len() && v[i] != '/'
        invariant
            from <= i <= v@.len(),
            forall|j: int| from <= j < i ==> v@[j] != '/',
        decreases v@.len() - i,
    {
        i += 1;
    }
    proof {
        first_at_is(v@.skip(from as int), is_slash(), i - from);
    }
    i
}

fn prev_slash(v: &Vec<char>, from: usize, to: usize) -> (r: usize)
    requires
        from <= to <= v@.len(),
    ensures
        from <= r <= to,
        r - from - 1 == last_slash(v@.subrange(from as int, to as int)),
{
    let mut i: usize = to;
    while i > from && v[i - 1] != '/'
        invariant
            from <= i <= to <= v@.len(),
            forall|j: int| i <= j < to ==> v@[j] != '/',
        decreases i,
    {
        i -= 1;
    }
    proof {
        last_slash_is(v@.subrange(from as int, to as int), i - from - 1);
    }
    i
}

fn piece_is_name(v: &Vec<char>, from: usize, to: usize) -> (r: bool)
    requires
        from <= to <= v@.len(),
    ensures
        r == is_name(v@.subrange(from as int, to as int)),
{
    proof {
        let piece = v@.subrange(from as int, to as int);
        if to - from == 1 && v@[from as int] == '.' {
            assert(piece =~= seq!['.']);
        } else if piece == seq!['.'] {
            assert(piece.len() == 1 && piece[0] == '.');
        }
    }
    to - from > 0 && !(to - from == 1 && v[from] == '.')
}

fn name_list(v: &Vec<char>) -> (r: Vec<String>)
    ensures
        views(r@) == names(v@),
{
    let mut r: Vec<String> = Vec::new();
    let mut from: usize = 0;
    let mut more = true;
    proof {
        assert(v@.skip(0) =~= v@);
        assert(views(r@) + names(v@) =~= names(v@));
    }
    while more
        invariant
            from <= v@.len(),
            more ==> views(r@) + names(v@.skip(from as int)) == names(v@),
            !more ==> views(r@) == names(v@),
        decreases v@.len() + 1 - from + (if more { 1int } else { 0 }),
    {
        let ghost before = views(r@);
        let ghost s = v@.skip(from as int);
        let to: usize = next_slash(v, from);
        let keep = piece_is_name(v, from, to);
        let ghost piece = v@.subrange(from as int, to as int);
        proof {
            assert(s.take(to - from) =~= piece);
            if to == v@.len() {
                assert(s =~= piece);
            } else {
                assert(s.skip(to - from + 1) =~= v@.skip(to + 1));
            }
        }
        if keep {
            r.push(text_of(v, from, to));
            proof {
                assert(views(r@) =~= before.push(piece));
                assert(before.push(piece) =~= before + seq![piece]);
            }
        }
        proof {
            assert(views(r@) =~= before + named_piece(piece));
        }
        if to < v.len() {
            proof {
                assert(before + (named_piece(piece) + names(v@.skip(to + 1))) =~= before
                    + named_piece(piece) + names(v@.skip(to + 1)));
            }
            from = to + 1;
        } else {
            more = false;
        }
    }
    r
}

fn tail_start(v: &Vec<char>, n: usize) -> (r: usize)
    ensures
        r <= v@.len(),
        v@.skip(r as int) == tail_after(v@, n as int),
{
    let mut from: usize = 0;
    let mut left: usize = n;
    proof {
        assert(v@.skip(0) =~= v@);
    }
    loop
        invariant
            from <= v@.len(),
            tail_after(v@.skip(from as int), left as int) == tail_after(v@, n as int),
        decreases v@.len() - from,
    {
        let ghost s = v@.skip(from as int);
        let to: usize = next_slash(v, from);
        let keep = piece_is_name(v, from, to);
        proof {
            assert(s.take(to - from) =~= v@.subrange(from as int, to as int));
            if to < v@.len() {
                assert(s.skip(to - from + 1) =~= v@.skip(to + 1));
            } else {
                assert(s =~= v@.subrange(from as int, to as int));
                assert(v@.skip(v@.len() as int) =~= Seq::<char>::empty());
            }
        }
        if keep && left == 0 {
            return from;
        }
        if to == v.len() {
            return v.len();
        }
        if keep {
            left -= 1;
        }
        from = to + 1;
    }
}

fn trimmed_end(v: &Vec<char>, from: usize) -> (r: usize)
    requires
        from <= v@.len(),
    ensures
        from <= r <= v@.len(),
        v@.subrange(from as int, r as int) == trimmed(v@.skip(from as int)),
{
    let mut end: usize = v.len();
    proof {
        assert(v@.subrange(from as int, end as int) =~= v@.skip(from as int));
    }
    loop
        invariant
            from <= end <= v@.len(),
            trimmed(v@.subrange(from as int, end as int)) == trimmed(v@.skip(from as int)),
        decreases end,
    {
        let ghost s = v@.subrange(from as int, end as int);
        let start: usize = prev_slash(v, from, end);
        let keep = piece_is_name(v, start, end);
        proof {
            assert(s.skip(start - from) =~= v@.subrange(start as int, end as int));
            if start > from {
                assert(s.take(start - from - 1) =~= v@.subrange(from as int, start - 1));
            }
            assert(v@.subrange(from as int, from as int) =~= Seq::<char>::empty());
        }
        if keep {
            return end;
        }
        if start == from {
            return from;
        }
        end = start - 1;
    }
}

/// Whether a path is absolute.
pub fn is_absolute(p: &str) -> (r: bool)
    ensures
        r == absolute(p@),
{
    let v = chars_of(p);
    v.len() > 0 && v[0] == '/'
}

/// The components of a path.
pub fn components(p: &str) -> (r: Vec<String>)
    ensures
        views(r@) == parts(p@),
{
    let v = chars_of(p);
    let mut r: Vec<String> = Vec::new();
    let mut rest = name_list(&v);
    if v.len() > 0 && (v[0] == '/' || v[0] == '.' && (v.len() == 1 || v[1] == '/')) {
        r.push(text_of(&v, 0, 1));
        proof {
            assert(r@[0]@ =~= seq![v@[0]]);
        }
    }
    proof {
        assert(views(r@) =~= lead(p@));
    }
    let ghost head = r@;
    let ghost tail = rest@;
    r.append(&mut rest);
    proof {
        assert(r@ =~= head + tail);
        assert(views(r@) =~= views(head) + views(tail));
    }
    r
}

fn is_prefix(a: &Vec<String>, b: &Vec<String>) -> (r: bool)
    ensures
        r == views(a@).is_prefix_of(views(b@)),
{
    if a.len() > b.len() {
        return false;
    }
    let mut i: usize = 0;
    while i < a.len()
        invariant
            i <= a@.len() <= b@.len(),
            forall|j: int| 0 <= j < i ==> #[trigger] a@[j]@ == b@[j]@,
        decreases a@.len() - i,
    {
        if !same(a[i].as_str(), b[i].as_str()) {
            proof {
                let k = i as int;
                assert(views(a@)[k] != views(b@)[k]);
                if views(a@).is_prefix_of(views(b@)) {
                    assert(views(a@) =~= views(b@).subrange(0, a@.len() as int));
                    assert(views(b@).subrange(0, a@.len() as int)[k] == views(b@)[k]);
                }
            }
            return false;
        }
        i += 1;
    }
    proof {
        assert(views(a@) =~= views(b@).subrange(0, a@.len() as int));
    }
    true
}

/// What is left of `p` below the directory `dir`, if it lies there.
pub fn strip_prefix(p: &str, dir: &str) -> (r: Option<String>)
    ensures
        match r {
            Some(s) => stripped(p@, dir@) == Some(s@),
            None => stripped(p@, dir@) is None,
        },
{
    let of_p = components(p);
    let of_dir = components(dir);
    if !is_prefix(&of_dir, &of_p) {
        return None;
    }
    let v = chars_of(p);
    if of_dir.len() == 0 {
        let end: usize = trim_path(&v);
        proof {
            assert(v@.subrange(0, end as int) =~= v@.take(end as int));
        }
        Some(text_of(&v, 0, end))
    } else {
        let w = chars_of(dir);
        let n: usize = name_list(&w).len();
        let from: usize = tail_start(&v, n);
        let end: usize = trimmed_end(&v, from);
        Some(text_of(&v, from, end))
    }
}

/// `p` seen from the directory `dir`: an absolute path passes through.
pub fn join(dir: &str, p: &str) -> (r: String)
    ensures
        r@ == joined_path(dir@, p@),
{
    if is_absolute(p) {
        return p.to_owned();
    }
    let v = chars_of(dir);
    let mut r = dir.to_owned();
    if v.len() > 0 && v[v.len() - 1] != '/' {
        r.push('/');
    }
    r.append(p);
    r
}

/// The last component of a path, if it is a name that stands for itself.
pub fn file_name(p: &str) -> (r: Option<String>)
    ensures
        match r {
            Some(s) => file_name_of(p@) == Some(s@),
            None => file_name_of(p@) is None,
        },
{
    let v = chars_of(p);
    let mut list = name_list(&v);
    let ghost all = list@;
    match list.pop() {
        Some(name) => {
            proof {
                assert(views(all).last() == name@);
                reveal_strlit("..");
                assert(".."@ =~= seq!['.', '.']);
            }
            if same(name.as_str(), "..") {
                None
            } else {
                Some(name)
            }
        },
        None => None,
    }
}

fn dot_end(v: &Vec<char>) -> (r: usize)
    ensures
        r <= v@.len(),
        r - 1 == last_dot(v@),
{
    let mut i: usize = v.len();
    proof {
        assert(v@.take(i as int) =~= v@);
    }
    while i > 0 && v[i - 1] != '.'
        invariant
            i <= v@.len(),
            last_dot(v@.take(i as int)) == last_dot(v@),
        decreases i,
    {
        proof {
            assert(v@.take(i as int).drop_last() =~= v@.take(i - 1));
        }
        i -= 1;
    }
    i
}

/// A file name without its extension.
pub fn stem(name: &str) -> (r: String)
    ensures
        r@ == stem_of(name@),
{
    let v = chars_of(name);
    let dot: usize = dot_end(&v);
    if dot <= 1 {
        name.to_owned()
    } else {
        let r = text_of(&v, 0, dot - 1);
        proof {
            assert(v@.subrange(0, dot - 1) =~= v@.take(dot - 1));
        }
        r
    }
}

/// The extension of a file name, if it has one.
pub fn extension(name: &str) -> (r: Option<String>)
    ensures
        match r {
            Some(s) => extension_of(name@) == Some(s@),
            None => extension_of(name@) is None,
        },
{
    let v = chars_of(name);
    let dot: usize = dot_end(&v);
    if dot <= 1 {
        None
    } else {
        let r = text_of(&v, dot, v.len());
        proof {
            assert(v@.subrange(dot as int, v@.len() as int) =~= v@.skip(dot as int));
        }
        Some(r)
    }
}

/// The directory that holds a path: the path without its last component, if it
/// has one that is not the root.
pub open spec fn parent_of(p: Seq<char>) -> Option<Seq<char>> {
    if names(p).len() > 0 {
        let whole = trimmed_path(p);
        Some(trimmed_path(whole.take(last_slash(whole) + 1)))
    } else if dotted(p) {
        Some(seq![])
    } else {
        None
    }
}

fn trim_path(v: &Vec<char>) -> (r: usize)
    ensures
        r <= v@.len(),
        v@.take(r as int) == trimmed_path(v@),
{
    let led = v.len() > 0 && (v[0] == '/' || v[0] == '.' && (v.len() == 1 || v[1] == '/'));
    let from: usize = if led {
        1
    } else {
        0
    };
    let end: usize = trimmed_end(v, from);
    proof {
        if !led {
            assert(v@.skip(0) =~= v@);
            assert(v@.take(end as int) =~= v@.subrange(0, end as int));
        } else {
            assert(v@.take(end as int) =~= v@.take(1) + v@.subrange(1, end as int));
        }
    }
    end
}

/// The directory that holds a path.
pub fn parent(p: &str) -> (r: Option<String>)
    ensures
        match r {
            Some(s) => parent_of(p@) == Some(s@),
            None => parent_of(p@) is None,
        },
{
    let mut v = chars_of(p);
    let list = name_list(&v);
    if list.len() > 0 {
        let end: usize = trim_path(&v);
        let cut: usize = prev_slash(&v, 0, end);
        proof {
            assert(v@.subrange(0, end as int) =~= v@.take(end as int));
            assert(v@.take(end as int).take(cut as int) =~= v@.take(cut as int));
        }
        v.truncate(cut);
        let len: usize = trim_path(&v);
        proof {
            assert(v@.subrange(0, len as int) =~= v@.take(len as int));
        }
        Some(text_of(&v, 0, len))
    } else if v.len() > 0 && v[0] == '.' && (v.len() == 1 || v[1] == '/') {
        proof {
            assert(v@.subrange(0, 0) =~= Seq::<char>::empty());
        }
        Some(text_of(&v, 0, 0))
    } else {
        None
    }
}

proof fn names_of_trimmed_path(p: Seq<char>)
    ensures
        names(trimmed_path(p)) == names(p),
{
    let rest = p.skip(1);
    let none = Seq::<char>::empty();
    slash_at_fits(none);
    assert(names(none) =~= Seq::<Seq<char>>::empty());
    if absolute(p) {
        assert(p =~= seq!['/'] + rest);
        assert(p.take(1) =~= seq!['/']);
        names_below_the_root(rest);
        names_of_trimmed(rest);
        names_below_the_root(trimmed(rest));
    } else if dotted(p) {
        let dot = seq!['.'];
        assert(p.take(1) =~= dot);
        first_at_is(dot, is_slash(), 1);
        assert(names(dot) =~= Seq::<Seq<char>>::empty());
        names_of_trimmed(rest);
        trimming_keeps_the_start(rest);
        let t = trimmed(rest);
        if rest.len() == 0 {
            assert(p =~= dot);
            assert(dot + t =~= dot);
        } else {
            assert(rest[0] == '/');
            assert(p =~= dot.push('/') + rest.skip(1));
            names_of_join(dot, rest.skip(1));
            assert(rest =~= seq!['/'] + rest.skip(1));
            names_below_the_root(rest.skip(1));
            assert(names(p) =~= names(rest));
            if t.len() == 0 {
                assert(t =~= none);
                assert(dot + t =~= dot);
            } else {
                assert(t[0] == rest[0]);
                assert(dot + t =~= dot.push('/') + t.skip(1));
                names_of_join(dot, t.skip(1));
                assert(t =~= seq!['/'] + t.skip(1));
                names_below_the_root(t.skip(1));
                assert(names(dot + t) =~= names(t));
            }
        }
    } else {
        names_of_trimmed(p);
    }
}

proof fn trimmed_ends_in_a_name(s: Seq<char>)
    ensures
        trimmed(s).len() > 0 ==> is_name(trimmed(s).skip(last_slash(trimmed(s)) + 1)),
    decreases s.len(),
{
    let j = last_slash(s);
    if !is_name(s.skip(j + 1)) && 0 <= j < s.len() {
        trimmed_ends_in_a_name(s.take(j));
    }
}

proof fn trimmed_path_ends_in_a_name(p: Seq<char>)
    requires
        names(p).len() > 0,
    ensures
        is_name(trimmed_path(p).skip(last_slash(trimmed_path(p)) + 1)),
{
    names_of_trimmed_path(p);
    let none = Seq::<char>::empty();
    slash_at_fits(none);
    assert(names(none) =~= Seq::<Seq<char>>::empty());
    if absolute(p) || dotted(p) {
        let rest = p.skip(1);
        let t = trimmed(rest);
        let whole = trimmed_path(p);
        trimmed_ends_in_a_name(rest);
        trimming_keeps_the_start(rest);
        if t.len() == 0 {
            let one = p.take(1);
            assert(whole =~= one);
            if absolute(p) {
                assert(one =~= seq!['/'] + none);
                names_below_the_root(none);
            } else {
                assert(one =~= seq!['.']);
                first_at_is(one, is_slash(), 1);
            }
        } else {
            let k = last_slash(t);
            last_slash_fits(t);
            if k == -1 {
                assert(rest.len() > 0 && t[0] == rest[0]);
                if dotted(p) {
                    assert(rest[0] == p[1]);
                    assert(t[0] == '/');
                }
                assert forall|m: int| 0 < m < whole.len() implies whole[m] != '/' by {
                    assert(whole[m] == t[m - 1]);
                }
                last_slash_is(whole, 0);
            } else {
                assert(whole[k + 1] == t[k]);
                assert forall|m: int| k + 1 < m < whole.len() implies whole[m] != '/' by {
                    assert(whole[m] == t[m - 1]);
                }
                last_slash_is(whole, k + 1);
            }
            assert(whole.skip(k + 2) =~= t.skip(k + 1));
        }
    } else {
        trimmed_ends_in_a_name(p);
        if trimmed(p).len() == 0 {
            assert(trimmed(p) =~= none);
        }
    }
}

/// A path lies in its parent: the parent has the path's names but the last, and
/// starts at the root just when the path does. A path without a name lies in none,
/// unless it is the current directory.
pub proof fn a_path_lies_in_its_parent(p: Seq<char>)
    ensures
        names(p).len() > 0 ==> {
            &&& parent_of(p) is Some
            &&& names(parent_of(p)->0) == names(p).drop_last()
            &&& absolute(parent_of(p)->0) == absolute(p)
        },
        names(p).len() == 0 && !dotted(p) ==> parent_of(p) is None,
{
    if names(p).len() > 0 {
        let whole = trimmed_path(p);
        names_of_trimmed_path(p);
        trimmed_path_ends_in_a_name(p);
        let j = last_slash(whole);
        last_slash_fits(whole);
        let piece = whole.skip(j + 1);
        let head = whole.take(j + 1);
        let none = Seq::<char>::empty();
        slash_at_fits(none);
        assert(names(none) =~= Seq::<Seq<char>>::empty());
        assert forall|k: int| 0 <= k < piece.len() implies !is_slash()(#[trigger] piece[k]) by {
            assert(piece[k] == whole[j + 1 + k]);
        }
        first_at_is(piece, is_slash(), piece.len() as int);
        assert(names(piece) =~= seq![piece]);
        names_of_trimmed_path(head);
        if j >= 0 {
            let dir = whole.take(j);
            assert(whole =~= dir.push('/') + piece);
            names_of_join(dir, piece);
            assert(head =~= dir.push('/') + none);
            names_of_join(dir, none);
            assert(names(head) =~= names(dir));
            assert(names(whole).drop_last() =~= names(dir));
        } else {
            assert(whole =~= piece);
            assert(head =~= none);
            assert(names(whole).drop_last() =~= names(none));
        }
        let rest = p.skip(1);
        trimming_keeps_the_start(rest);
        trimming_keeps_the_start(p);
        trimming_keeps_the_start(head);
        trimming_keeps_the_start(head.skip(1));
        if absolute(p) {
            assert(whole[0] == '/');
            assert(j >= 0);
            assert(head[0] == '/');
        } else if head.len() > 0 {
            assert(whole[0] == p[0]);
            assert(head[0] == p[0]);
        }
    }
}

} // verus!
