//! Paths as Unix has them: bytes, with `/` between the components.

use vstd::prelude::*;
use vstd::string::*;
use vstd::utf8::encode_utf8;

use crate::outside::{lossy_text, utf8_lossy};

verus! {

/// The bytes of each path of a list.
pub open spec fn path_views(paths: Seq<Vec<u8>>) -> Seq<Seq<u8>> {
    paths.map_values(|p: Vec<u8>| p@)
}

/// The bytes of an optional path.
pub open spec fn opt_path_view(path: Option<Vec<u8>>) -> Option<Seq<u8>> {
    match path {
        Some(p) => Some(p@),
        None => None,
    }
}

/// The separator of components.
pub const SEPARATOR: u8 = 0x2f;

/// The byte of a dot.
pub const DOT: u8 = 0x2e;

/// The pieces of a path between its separators.
pub open spec fn path_pieces(path: Seq<u8>) -> Seq<Seq<u8>>
    decreases path.len(),
{
    if path.len() == 0 {
        seq![Seq::<u8>::empty()]
    } else {
        let before = path_pieces(path.drop_last());
        if path.last() == SEPARATOR {
            before.push(Seq::<u8>::empty())
        } else {
            before.drop_last().push(before.last().push(path.last()))
        }
    }
}

/// Whether the piece at the place `i` is a component of the path: it is not empty, and not a single
/// dot unless it is the first.
pub open spec fn counts(piece: Seq<u8>, i: int) -> bool {
    piece.len() > 0 && (i == 0 || piece != seq![DOT])
}

/// The components among the first `n` pieces.
pub open spec fn named_components(pieces: Seq<Seq<u8>>, n: nat) -> Seq<Seq<u8>>
    decreases n,
{
    if n == 0 {
        Seq::empty()
    } else {
        let before = named_components(pieces, (n - 1) as nat);
        if counts(pieces[n - 1], n - 1) {
            before.push(pieces[n - 1])
        } else {
            before
        }
    }
}

/// The components of a path. The root, of a path that begins with a separator, is a component of its
/// own. Repeated separators, separators at the end and inner dots do not count.
pub open spec fn components(path: Seq<u8>) -> Seq<Seq<u8>> {
    let named = named_components(path_pieces(path), path_pieces(path).len());
    if path.len() > 0 && path[0] == SEPARATOR {
        seq![seq![SEPARATOR]] + named
    } else {
        named
    }
}

/// Whether `path` begins with `base`, component by component.
pub open spec fn path_has_prefix(path: Seq<u8>, base: Seq<u8>) -> bool {
    components(base).is_prefix_of(components(path))
}

/// Whether two paths have the same components.
pub open spec fn same_path(a: Seq<u8>, b: Seq<u8>) -> bool {
    components(a) == components(b)
}

/// `base` with the relative path `name` behind it.
pub open spec fn path_joined(base: Seq<u8>, name: Seq<u8>) -> Seq<u8> {
    if base.len() == 0 || base.last() == SEPARATOR {
        base + name
    } else {
        base.push(SEPARATOR) + name
    }
}

/// A copy of a path.
pub fn clone_path(path: &Vec<u8>) -> (copy: Vec<u8>)
    ensures
        copy@ == path@,
{
    let mut copy: Vec<u8> = Vec::new();
    let mut i: usize = 0;
    while i < path.len()
        invariant
            i <= path@.len(),
            copy@ == path@.take(i as int),
        decreases path.len() - i,
    {
        copy.push(path[i]);
        i = i + 1;
    }
    assert(copy@ == path@);
    copy
}

fn append_bytes(path: &mut Vec<u8>, more: &[u8])
    ensures
        final(path)@ == old(path)@ + more@,
{
    let ghost before = path@;
    let mut i: usize = 0;
    while i < more.len()
        invariant
            i <= more@.len(),
            path@ == before + more@.take(i as int),
        decreases more.len() - i,
    {
        path.push(more[i]);
        i = i + 1;
        assert(path@ =~= before + more@.take(i as int));
    }
    assert(path@ =~= before + more@);
}

/// The path that a text spells.
pub fn path_of_text(text: &str) -> (path: Vec<u8>)
    ensures
        path@ == encode_utf8(text@),
{
    let mut path: Vec<u8> = Vec::new();
    append_bytes(&mut path, text.as_bytes());
    assert(path@ =~= encode_utf8(text@));
    path
}

/// The text that a path is shown as.
pub fn path_text(path: &Vec<u8>) -> (text: String)
    ensures
        text@ == utf8_lossy(path@),
{
    lossy_text(path)
}

/// `base` with the relative path `name` behind it.
pub fn join_path(base: &Vec<u8>, name: &[u8]) -> (path: Vec<u8>)
    ensures
        path@ == path_joined(base@, name@),
{
    let mut path = clone_path(base);
    let n = base.len();
    if n > 0 && base[n - 1] != SEPARATOR {
        path.push(SEPARATOR);
    }
    append_bytes(&mut path, name);
    path
}

fn pieces_of(path: &Vec<u8>) -> (pieces: Vec<Vec<u8>>)
    ensures
        path_views(pieces@) == path_pieces(path@),
{
    let mut pieces: Vec<Vec<u8>> = Vec::new();
    let mut piece: Vec<u8> = Vec::new();
    let mut i: usize = 0;
    assert(path_views(pieces@).push(piece@) =~= path_pieces(path@.take(0)));
    while i < path.len()
        invariant
            i <= path@.len(),
            path_views(pieces@).push(piece@) == path_pieces(path@.take(i as int)),
        decreases path.len() - i,
    {
        let b = path[i];
        let ghost before = path_views(pieces@);
        let ghost held = piece@;
        assert(path@.take(i + 1).drop_last() =~= path@.take(i as int));
        assert(path@.take(i + 1).last() == b);
        if b == SEPARATOR {
            pieces.push(piece);
            piece = Vec::new();
            assert(path_views(pieces@) =~= before.push(held));
        } else {
            piece.push(b);
            assert(before.push(held).drop_last() =~= before);
        }
        i = i + 1;
    }
    assert(path@.take(i as int) =~= path@);
    let ghost before = path_views(pieces@);
    let ghost held = piece@;
    pieces.push(piece);
    assert(path_views(pieces@) =~= before.push(held));
    pieces
}

/// The components of a path.
pub fn path_components(path: &Vec<u8>) -> (parts: Vec<Vec<u8>>)
    ensures
        path_views(parts@) == components(path@),
{
    let pieces = pieces_of(path);
    let ghost all = path_views(pieces@);
    let mut parts: Vec<Vec<u8>> = Vec::new();
    let ghost mut head: Seq<Seq<u8>> = Seq::empty();
    if path.len() > 0 && path[0] == SEPARATOR {
        let mut root: Vec<u8> = Vec::new();
        root.push(SEPARATOR);
        let ghost text = root@;
        parts.push(root);
        proof {
            head = seq![seq![SEPARATOR]];
            assert(text =~= seq![SEPARATOR]);
        }
    }
    assert(path_views(parts@) =~= head);
    let mut i: usize = 0;
    assert(head + named_components(all, 0) =~= head);
    while i < pieces.len()
        invariant
            i <= pieces@.len(),
            all == path_views(pieces@),
            path_views(parts@) == head + named_components(all, i as nat),
        decreases pieces.len() - i,
    {
        let piece = &pieces[i];
        assert(all[i as int] == piece@);
        let dot = piece.len() == 1 && piece[0] == DOT;
        assert(dot == (piece@ == seq![DOT])) by {
            if dot {
                assert(piece@ =~= seq![DOT]);
            }
        }
        if piece.len() > 0 && (i == 0 || !dot) {
            let ghost before = path_views(parts@);
            let ghost text = piece@;
            parts.push(clone_path(piece));
            assert(path_views(parts@) =~= before.push(text));
            assert(before.push(text) =~= head + named_components(all, (i + 1) as nat));
        }
        i = i + 1;
    }
    assert(path_views(parts@) =~= components(path@));
    parts
}

fn bytes_eq(a: &Vec<u8>, b: &Vec<u8>) -> (eq: bool)
    ensures
        eq == (a@ == b@),
{
    if a.len() != b.len() {
        return false;
    }
    let mut i: usize = 0;
    while i < a.len()
        invariant
            i <= a@.len() == b@.len(),
            forall|j: int| 0 <= j < i ==> #[trigger] a@[j] == b@[j],
        decreases a.len() - i,
    {
        if a[i] != b[i] {
            return false;
        }
        i = i + 1;
    }
    assert(a@ =~= b@);
    true
}

/// Whether `path` begins with `base`, component by component.
pub fn path_starts_with(path: &Vec<u8>, base: &Vec<u8>) -> (yes: bool)
    ensures
        yes == path_has_prefix(path@, base@),
{
    let whole = path_components(path);
    let start = path_components(base);
    let ghost w = path_views(whole@);
    let ghost s = path_views(start@);
    if start.len() > whole.len() {
        return false;
    }
    let mut i: usize = 0;
    while i < start.len()
        invariant
            i <= start@.len() <= whole@.len(),
            w == path_views(whole@),
            s == path_views(start@),
            w == components(path@),
            s == components(base@),
            forall|j: int| 0 <= j < i ==> #[trigger] s[j] == w[j],
        decreases start.len() - i,
    {
        assert(s[i as int] == start@[i as int]@ && w[i as int] == whole@[i as int]@);
        if !bytes_eq(&start[i], &whole[i]) {
            assert(w.subrange(0, s.len() as int)[i as int] == w[i as int]);
            return false;
        }
        i = i + 1;
    }
    assert(w.subrange(0, s.len() as int) =~= s);
    true
}

/// Whether two paths have the same components.
pub fn paths_equal(a: &Vec<u8>, b: &Vec<u8>) -> (yes: bool)
    ensures
        yes == same_path(a@, b@),
{
    let yes = path_starts_with(a, b) && path_starts_with(b, a);
    proof {
        let x = components(a@);
        let y = components(b@);
        if yes {
            assert(x.subrange(0, y.len() as int) =~= x);
        }
        if x == y {
            assert(x.subrange(0, y.len() as int) =~= y);
        }
    }
    yes
}

/// Every path begins with itself, and a path that begins with another begins with all that the other
/// begins with. Two paths that begin with each other are the same.
pub proof fn prefixes_are_ordered(a: Seq<u8>, b: Seq<u8>, c: Seq<u8>)
    ensures
        path_has_prefix(a, a),
        path_has_prefix(a, b) && path_has_prefix(b, c) ==> path_has_prefix(a, c),
        path_has_prefix(a, b) && path_has_prefix(b, a) ==> same_path(a, b),
{
    let x = components(a);
    let y = components(b);
    let z = components(c);
    assert(x.subrange(0, x.len() as int) =~= x);
    if path_has_prefix(a, b) && path_has_prefix(b, c) {
        assert(x.subrange(0, z.len() as int) =~= y.subrange(0, z.len() as int));
    }
    if path_has_prefix(a, b) && path_has_prefix(b, a) {
        assert(x.subrange(0, y.len() as int) =~= x);
    }
}

/// The directory of the state: `CLAWHIP_HOME`, else `.clawhip` in `HOME`, else `.clawhip`.
pub open spec fn state_dir(clawhip_home: Option<Seq<u8>>, home: Option<Seq<u8>>) -> Seq<u8> {
    match clawhip_home {
        Some(dir) => dir,
        None => match home {
            Some(home) => path_joined(home, encode_utf8(".clawhip"@)),
            None => encode_utf8(".clawhip"@),
        },
    }
}

/// The file of the ledger: `CLAWHIP_LEDGER`, else `session-ledger.sqlite` in the directory of the
/// state.
pub open spec fn ledger_path(
    clawhip_ledger: Option<Seq<u8>>,
    clawhip_home: Option<Seq<u8>>,
    home: Option<Seq<u8>>,
) -> Seq<u8> {
    match clawhip_ledger {
        Some(path) => path,
        None => path_joined(
            state_dir(clawhip_home, home),
            encode_utf8("session-ledger.sqlite"@),
        ),
    }
}

/// The directory of the state, given the variables that name it.
pub fn default_state_dir(clawhip_home: Option<Vec<u8>>, home: Option<Vec<u8>>) -> (dir: Vec<u8>)
    ensures
        dir@ == state_dir(opt_path_view(clawhip_home), opt_path_view(home)),
{
    match clawhip_home {
        Some(dir) => dir,
        None => match home {
            Some(home) => join_path(&home, ".clawhip".as_bytes()),
            None => path_of_text(".clawhip"),
        },
    }
}

/// The file of the ledger, given the variables that name it.
pub fn default_ledger_path(
    clawhip_ledger: Option<Vec<u8>>,
    clawhip_home: Option<Vec<u8>>,
    home: Option<Vec<u8>>,
) -> (path: Vec<u8>)
    ensures
        path@ == ledger_path(
            opt_path_view(clawhip_ledger),
            opt_path_view(clawhip_home),
            opt_path_view(home),
        ),
{
    match clawhip_ledger {
        Some(path) => path,
        None => {
            let dir = default_state_dir(clawhip_home, home);
            join_path(&dir, "session-ledger.sqlite".as_bytes())
        },
    }
}

/// The order of names by their bytes from the left, a name before its own extensions.
pub open spec fn bytes_le(a: Seq<u8>, b: Seq<u8>) -> bool
    decreases a.len(),
{
    if a.len() == 0 {
        true
    } else if b.len() == 0 {
        false
    } else if a[0] == b[0] {
        bytes_le(a.drop_first(), b.drop_first())
    } else {
        a[0] < b[0]
    }
}

fn is_bytes_le(a: &Vec<u8>, b: &Vec<u8>) -> (yes: bool)
    ensures
        yes == bytes_le(a@, b@),
{
    let mut i: usize = 0;
    assert(a@.skip(0) =~= a@ && b@.skip(0) =~= b@);
    while i < a.len() && i < b.len()
        invariant
            i <= a@.len(),
            i <= b@.len(),
            bytes_le(a@.skip(i as int), b@.skip(i as int)) == bytes_le(a@, b@),
        decreases a.len() - i,
    {
        assert(a@.skip(i as int)[0] == a@[i as int] && b@.skip(i as int)[0] == b@[i as int]);
        if a[i] != b[i] {
            return a[i] < b[i];
        }
        assert(a@.skip(i as int).drop_first() =~= a@.skip(i + 1));
        assert(b@.skip(i as int).drop_first() =~= b@.skip(i + 1));
        i = i + 1;
    }
    i == a.len()
}

proof fn lemma_bytes_le_total(a: Seq<u8>, b: Seq<u8>)
    ensures
        bytes_le(a, b) || bytes_le(b, a),
    decreases a.len(),
{
    if a.len() > 0 && b.len() > 0 && a[0] == b[0] {
        lemma_bytes_le_total(a.drop_first(), b.drop_first());
    }
}

proof fn lemma_bytes_le_transitive(a: Seq<u8>, b: Seq<u8>, c: Seq<u8>)
    requires
        bytes_le(a, b),
        bytes_le(b, c),
    ensures
        bytes_le(a, c),
    decreases a.len(),
{
    if a.len() > 0 && b.len() > 0 && c.len() > 0 && a[0] == b[0] && b[0] == c[0] {
        lemma_bytes_le_transitive(a.drop_first(), b.drop_first(), c.drop_first());
    }
}

/// Whether `sorted` holds the names `names`, each as often, in order.
pub open spec fn sorts_names(sorted: Seq<Seq<u8>>, names: Seq<Seq<u8>>) -> bool {
    &&& forall|i: int, j: int|
        0 <= i < j < sorted.len() ==> bytes_le(#[trigger] sorted[i], #[trigger] sorted[j])
    &&& sorted.to_multiset() == names.to_multiset()
}

/// The names in order.
pub fn sort_names(names: &Vec<Vec<u8>>) -> (sorted: Vec<Vec<u8>>)
    ensures
        sorts_names(path_views(sorted@), path_views(names@)),
        sorted@.len() == names@.len(),
{
    let mut sorted: Vec<Vec<u8>> = Vec::new();
    let ghost all = path_views(names@);
    let mut n: usize = 0;
    assert(path_views(sorted@) =~= all.take(0));
    while n < names.len()
        invariant
            n <= names@.len(),
            all == path_views(names@),
            sorted@.len() == n,
            sorts_names(path_views(sorted@), all.take(n as int)),
        decreases names.len() - n,
    {
        let ghost before = path_views(sorted@);
        let ghost new = names@[n as int]@;
        let mut p: usize = 0;
        while p < sorted.len() && is_bytes_le(&sorted[p], &names[n])
            invariant
                n < names@.len(),
                new == names@[n as int]@,
                p <= sorted@.len() == n,
                before == path_views(sorted@),
                forall|j: int| 0 <= j < p ==> bytes_le(#[trigger] before[j], new),
            decreases sorted.len() - p,
        {
            assert(before[p as int] == sorted@[p as int]@);
            p = p + 1;
        }
        if p < sorted.len() {
            assert(before[p as int] == sorted@[p as int]@);
        }
        sorted.insert(p, clone_path(&names[n]));
        let ghost after = before.insert(p as int, new);
        assert(path_views(sorted@) =~= after);
        proof {
            assert forall|a: int, b: int| 0 <= a < b < after.len() implies bytes_le(
                #[trigger] after[a],
                #[trigger] after[b],
            ) by {
                let x = if a < p { a } else { a - 1 };
                let y = if b < p { b } else { b - 1 };
                if a != p && b != p {
                    assert(bytes_le(before[x], before[y]));
                } else if a == p {
                    lemma_bytes_le_total(before[p as int], new);
                    if y > p {
                        assert(bytes_le(before[p as int], before[y]));
                        lemma_bytes_le_transitive(new, before[p as int], before[y]);
                    }
                }
            }
            broadcast use vstd::seq_lib::group_to_multiset_ensures;
            assert(all.take(n + 1) =~= all.take(n as int).push(new));
            assert(after.to_multiset() =~= before.to_multiset().insert(new));
            assert(all.take(n + 1).to_multiset() =~= all.take(n as int).to_multiset().insert(new));
        }
        n = n + 1;
    }
    assert(all.take(n as int) =~= all);
    sorted
}

proof fn lemma_bytes_le_antisymmetric(a: Seq<u8>, b: Seq<u8>)
    requires
        bytes_le(a, b),
        bytes_le(b, a),
    ensures
        a == b,
    decreases a.len(),
{
    if a.len() > 0 && b.len() > 0 {
        lemma_bytes_le_antisymmetric(a.drop_first(), b.drop_first());
        assert(a =~= seq![a[0]] + a.drop_first());
        assert(b =~= seq![b[0]] + b.drop_first());
    }
    assert(a =~= b);
}

/// There is one way to sort the names.
pub proof fn sorted_names_are_determined(sorted: Seq<Seq<u8>>, other: Seq<Seq<u8>>)
    requires
        sorts_names(sorted, other),
        sorts_names(other, sorted),
    ensures
        sorted == other,
    decreases sorted.len(),
{
    broadcast use vstd::seq_lib::group_to_multiset_ensures;
    assert(sorted.to_multiset().len() == other.to_multiset().len());
    if sorted.len() > 0 {
        let x = sorted.last();
        let y = other.last();
        assert(sorted.contains(x) && other.contains(y));
        assert(sorted.to_multiset().count(x) > 0 && other.to_multiset().count(y) > 0);
        assert(other.contains(x) && sorted.contains(y));
        let i = other.index_of(x);
        let j = sorted.index_of(y);
        if i < other.len() - 1 && j < sorted.len() - 1 {
            assert(bytes_le(other[i], other[other.len() - 1]));
            assert(bytes_le(sorted[j], sorted[sorted.len() - 1]));
            lemma_bytes_le_antisymmetric(x, y);
        }
        assert(x == y);
        let s = sorted.drop_last();
        let t = other.drop_last();
        assert(s =~= sorted.remove(sorted.len() - 1));
        assert(t =~= other.remove(other.len() - 1));
        assert forall|a: int, b: int| 0 <= a < b < s.len() implies bytes_le(
            #[trigger] s[a],
            #[trigger] s[b],
        ) by {
            assert(bytes_le(sorted[a], sorted[b]));
        }
        assert forall|a: int, b: int| 0 <= a < b < t.len() implies bytes_le(
            #[trigger] t[a],
            #[trigger] t[b],
        ) by {
            assert(bytes_le(other[a], other[b]));
        }
        sorted_names_are_determined(s, t);
        assert(sorted =~= s.push(x));
        assert(other =~= t.push(y));
    }
    assert(sorted =~= other);
}

} // verus!
