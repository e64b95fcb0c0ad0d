//! What paths are made of, said piece by piece.

use vstd::prelude::*;
use vstd::string::*;
use vstd::utf8::encode_utf8;

use crate::paths::{
    bytes_le, components, ledger_path, named_components, path_has_prefix, path_joined, path_pieces,
    same_path, state_dir,
};

verus! {

proof fn lemma_pieces_plain(name: Seq<u8>)
    requires
        !name.contains(0x2f),
    ensures
        path_pieces(name) == seq![name],
    decreases name.len(),
{
    if name.len() == 0 {
        assert(name =~= Seq::empty());
    } else {
        let front = name.drop_last();
        assert forall|i: int| 0 <= i < front.len() implies front[i] != 0x2f by {
            assert(name.contains(name[i]));
        }
        lemma_pieces_plain(front);
        assert(name.contains(name.last()));
        assert(seq![front].drop_last() =~= Seq::empty());
        assert(front.push(name.last()) =~= name);
        assert(path_pieces(name) =~= seq![name]);
    }
}

proof fn lemma_pieces_behind(path: Seq<u8>, name: Seq<u8>)
    requires
        !name.contains(0x2f),
    ensures
        path_pieces(path.push(0x2f) + name) == path_pieces(path).push(name),
    decreases name.len(),
{
    let whole = path.push(0x2f) + name;
    if name.len() == 0 {
        assert(whole =~= path.push(0x2f));
        assert(whole.drop_last() =~= path);
        assert(name =~= Seq::empty());
    } else {
        let front = name.drop_last();
        assert forall|i: int| 0 <= i < front.len() implies front[i] != 0x2f by {
            assert(name.contains(name[i]));
        }
        lemma_pieces_behind(path, front);
        assert(name.contains(name.last()));
        assert(whole.drop_last() =~= path.push(0x2f) + front);
        assert(path_pieces(path).push(front).drop_last() =~= path_pieces(path));
        assert(front.push(name.last()) =~= name);
    }
}

proof fn lemma_named_in_front(pieces: Seq<Seq<u8>>, more: Seq<u8>, n: nat)
    requires
        n <= pieces.len(),
    ensures
        named_components(pieces.push(more), n) == named_components(pieces, n),
    decreases n,
{
    if n > 0 {
        lemma_named_in_front(pieces, more, (n - 1) as nat);
        assert(pieces.push(more)[n - 1] == pieces[n - 1]);
    }
}

/// A path is read name by name. A single name is its own component, be it a dot or not. A name
/// behind a separator is one more component, unless it is empty or a single dot, which count for
/// nothing there. A separator in front is a component of its own.
pub proof fn paths_are_read_name_by_name(path: Seq<u8>, name: Seq<u8>)
    requires
        !name.contains(0x2f),
    ensures
        components(name) == if name.len() == 0 {
            Seq::empty()
        } else {
            seq![name]
        },
        path.len() > 0 ==> components(path.push(0x2f) + name) == if name.len() == 0 || name
            == seq![0x2eu8] {
            components(path)
        } else {
            components(path).push(name)
        },
        components(seq![0x2fu8] + name) == if name.len() == 0 || name == seq![0x2eu8] {
            seq![seq![0x2fu8]]
        } else {
            seq![seq![0x2fu8], name]
        },
{
    lemma_pieces_plain(name);
    reveal_with_fuel(named_components, 3);
    if name.len() > 0 {
        assert(name.contains(name[0]));
    }
    assert(components(name) =~= if name.len() == 0 {
        Seq::empty()
    } else {
        seq![name]
    });
    let none = Seq::<u8>::empty();
    let rooted = seq![0x2fu8] + name;
    lemma_pieces_behind(none, name);
    assert(none.push(0x2f) + name =~= rooted);
    assert(path_pieces(none) =~= seq![none]);
    assert(path_pieces(rooted) =~= seq![none, name]);
    assert(components(rooted) =~= if name.len() == 0 || name == seq![0x2eu8] {
        seq![seq![0x2fu8]]
    } else {
        seq![seq![0x2fu8], name]
    });
    if path.len() > 0 {
        let whole = path.push(0x2f) + name;
        let pieces = path_pieces(path);
        lemma_pieces_behind(path, name);
        lemma_named_in_front(pieces, name, pieces.len());
        lemma_some_piece(path);
        assert(whole[0] == path[0]);
        assert(components(whole) =~= if name.len() == 0 || name == seq![0x2eu8] {
            components(path)
        } else {
            components(path).push(name)
        });
    }
}

proof fn lemma_some_piece(path: Seq<u8>)
    ensures
        path_pieces(path).len() > 0,
    decreases path.len(),
{
    if path.len() > 0 {
        lemma_some_piece(path.drop_last());
    }
}

/// One path begins with another exactly where their components agree, one by one, as far as the
/// other goes; two paths are the same exactly where they have the same components.
pub proof fn prefixes_agree_component_by_component(path: Seq<u8>, base: Seq<u8>)
    ensures
        path_has_prefix(path, base) <==> components(base).len() <= components(path).len()
            && forall|i: int|
            0 <= i < components(base).len() ==> #[trigger] components(base)[i]
                == components(path)[i],
        same_path(path, base) <==> components(base).len() == components(path).len() && forall|
            i: int,
        |
            0 <= i < components(base).len() ==> #[trigger] components(base)[i]
                == components(path)[i],
{
    let x = components(path);
    let y = components(base);
    if y.len() <= x.len() && forall|i: int| 0 <= i < y.len() ==> #[trigger] y[i] == x[i] {
        assert(x.subrange(0, y.len() as int) =~= y);
        if y.len() == x.len() {
            assert(x =~= y);
        }
    }
    if path_has_prefix(path, base) {
        assert forall|i: int| 0 <= i < y.len() implies #[trigger] y[i] == x[i] by {
            assert(x.subrange(0, y.len() as int)[i] == x[i]);
        }
    }
}

/// A name is put behind a path with exactly one separator between them, and with none where the
/// path is empty.
pub proof fn joined_paths_have_one_separator(base: Seq<u8>, name: Seq<u8>)
    ensures
        path_joined(Seq::empty(), name) == name,
        path_joined(base.push(0x2f), name) == base.push(0x2f) + name,
        base.len() > 0 && base[base.len() - 1] != 0x2f ==> path_joined(base, name) == path_joined(
            base.push(0x2f),
            name,
        ),
{
    assert(path_joined(Seq::empty(), name) =~= name);
}

/// The ledger stands where `CLAWHIP_LEDGER` says, whatever else is set; else in `CLAWHIP_HOME`;
/// else in `.clawhip` under `HOME`; else in `.clawhip`.
pub proof fn variables_name_the_ledger(
    ledger: Seq<u8>,
    clawhip_home: Option<Seq<u8>>,
    home: Option<Seq<u8>>,
    dir: Seq<u8>,
)
    ensures
        ledger_path(Some(ledger), clawhip_home, home) == ledger,
        ledger_path(None, Some(dir), home) == path_joined(
            dir,
            encode_utf8("session-ledger.sqlite"@),
        ),
        ledger_path(None, None, Some(dir)) == path_joined(
            path_joined(dir, encode_utf8(".clawhip"@)),
            encode_utf8("session-ledger.sqlite"@),
        ),
        ledger_path(None, None, None) == path_joined(
            encode_utf8(".clawhip"@),
            encode_utf8("session-ledger.sqlite"@),
        ),
        state_dir(Some(dir), home) == dir,
{
}

/// One name comes no later than another exactly where it is the beginning of the other, or has the
/// lower byte at the first place where the two differ.
pub proof fn names_are_ordered_by_the_first_difference(a: Seq<u8>, b: Seq<u8>)
    ensures
        bytes_le(a, b) <==> (a.len() <= b.len() && forall|i: int|
            0 <= i < a.len() ==> #[trigger] a[i] == b[i]) || exists|d: int|
            0 <= d < a.len() && d < b.len() && #[trigger] a[d] < b[d] && forall|i: int|
                0 <= i < d ==> #[trigger] a[i] == b[i],
    decreases a.len(),
{
    let prefix = a.len() <= b.len() && forall|i: int| 0 <= i < a.len() ==> #[trigger] a[i] == b[i];
    let less = exists|d: int|
        0 <= d < a.len() && d < b.len() && #[trigger] a[d] < b[d] && forall|i: int|
            0 <= i < d ==> #[trigger] a[i] == b[i];
    if a.len() > 0 && b.len() > 0 && a[0] == b[0] {
        let x = a.drop_first();
        let y = b.drop_first();
        names_are_ordered_by_the_first_difference(x, y);
        if bytes_le(x, y) {
            if x.len() <= y.len() && forall|i: int| 0 <= i < x.len() ==> #[trigger] x[i] == y[i] {
                assert forall|i: int| 0 <= i < a.len() implies #[trigger] a[i] == b[i] by {
                    if i > 0 {
                        assert(x[i - 1] == a[i] && y[i - 1] == b[i]);
                    }
                }
                assert(prefix);
            } else {
                let d = choose|d: int|
                    0 <= d < x.len() && d < y.len() && #[trigger] x[d] < y[d] && forall|i: int|
                        0 <= i < d ==> #[trigger] x[i] == y[i];
                assert(a[d + 1] < b[d + 1]);
                assert forall|i: int| 0 <= i < d + 1 implies #[trigger] a[i] == b[i] by {
                    if i > 0 {
                        assert(x[i - 1] == a[i] && y[i - 1] == b[i]);
                    }
                }
                assert(less);
            }
        }
        if prefix {
            assert forall|i: int| 0 <= i < x.len() implies #[trigger] x[i] == y[i] by {
                assert(a[i + 1] == b[i + 1]);
            }
        }
        if less {
            let d = choose|d: int|
                0 <= d < a.len() && d < b.len() && #[trigger] a[d] < b[d] && forall|i: int|
                    0 <= i < d ==> #[trigger] a[i] == b[i];
            assert(d > 0);
            assert(x[d - 1] < y[d - 1]);
            assert forall|i: int| 0 <= i < d - 1 implies #[trigger] x[i] == y[i] by {
                assert(a[i + 1] == b[i + 1]);
            }
        }
    } else if a.len() > 0 && b.len() > 0 {
        if a[0] < b[0] {
            assert(less);
        }
        if less {
            let d = choose|d: int|
                0 <= d < a.len() && d < b.len() && #[trigger] a[d] < b[d] && forall|i: int|
                    0 <= i < d ==> #[trigger] a[i] == b[i];
            if d > 0 {
                assert(a[0] == b[0]);
            }
        }
    }
}

} // verus!
