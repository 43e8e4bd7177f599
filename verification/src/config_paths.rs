//! Which configuration files are watched.

use crate::data::Data;
use crate::order::{self, comes_before};
use vstd::prelude::*;

verus! {

/// Where a layer of the configuration comes from. Paths are given by their components.
pub enum ConfigLayerSource {
    User { file: Vec<String> },
    Other,
}

/// Whether a path comes before another one: by the first component in which they differ, or
/// because it leads to the other one.
pub open spec fn path_before(a: Seq<Seq<char>>, b: Seq<Seq<char>>) -> bool
    decreases b.len(),
{
    if b.len() == 0 {
        false
    } else if a.len() == 0 {
        true
    } else if a[0] != b[0] {
        order::text_before(a[0], b[0])
    } else {
        path_before(a.subrange(1, a.len() as int), b.subrange(1, b.len() as int))
    }
}

/// The order of paths is transitive.
pub proof fn path_order_transitive(a: Seq<Seq<char>>, b: Seq<Seq<char>>, c: Seq<Seq<char>>)
    requires
        path_before(a, b),
        path_before(b, c),
    ensures
        path_before(a, c),
    decreases c.len(),
{
    if a.len() > 0 {
        if a[0] == b[0] && b[0] == c[0] {
            path_order_transitive(
                a.subrange(1, a.len() as int),
                b.subrange(1, b.len() as int),
                c.subrange(1, c.len() as int),
            );
        } else if a[0] != b[0] && b[0] != c[0] {
            order::text_order_transitive(a[0], b[0], c[0]);
            order::text_order_irreflexive(a[0]);
        }
    }
}

/// Of two different paths exactly one comes before the other.
pub proof fn path_order_total(a: Seq<Seq<char>>, b: Seq<Seq<char>>)
    ensures
        a == b || path_before(a, b) || path_before(b, a),
        !(path_before(a, b) && path_before(b, a)),
    decreases a.len(),
{
    if a.len() > 0 {
        if b.len() > 0 {
            order::text_order_total(a[0], b[0]);
            if order::text_before(a[0], b[0]) && order::text_before(b[0], a[0]) {
                order::text_order_transitive(a[0], b[0], a[0]);
                order::text_order_irreflexive(a[0]);
            }
        }
        let a1 = a.subrange(1, a.len() as int);
        if b.len() > 0 && a[0] == b[0] {
            let b1 = b.subrange(1, b.len() as int);
            path_order_total(a1, b1);
            if a1 == b1 {
                assert(a =~= seq![a[0]] + a1);
                assert(b =~= seq![b[0]] + b1);
            }
        }
    } else if b.len() == 0 {
        assert(a =~= b);
    }
}

fn leads_before(a: &Vec<String>, b: &Vec<String>) -> (r: bool)
    ensures
        r == path_before(a.deep_view(), b.deep_view()),
{
    let ghost x = a.deep_view();
    let ghost y = b.deep_view();
    let mut i: usize = 0;
    assert(x.subrange(0, x.len() as int) =~= x);
    assert(y.subrange(0, y.len() as int) =~= y);
    while i < a.len() && i < b.len() && a[i] == b[i]
        invariant
            x == a.deep_view(),
            y == b.deep_view(),
            i <= a@.len(),
            i <= b@.len(),
            path_before(x, y) == path_before(
                x.subrange(i as int, x.len() as int),
                y.subrange(i as int, y.len() as int),
            ),
        decreases a@.len() - i,
    {
        proof {
            let x1 = x.subrange(i as int, x.len() as int);
            let y1 = y.subrange(i as int, y.len() as int);
            assert(x1[0] == a@[i as int]@ && y1[0] == b@[i as int]@);
            assert(x1.subrange(1, x1.len() as int) =~= x.subrange(i + 1, x.len() as int));
            assert(y1.subrange(1, y1.len() as int) =~= y.subrange(i + 1, y.len() as int));
        }
        i += 1;
    }
    if i >= b.len() {
        false
    } else if i >= a.len() {
        true
    } else {
        proof {
            let x1 = x.subrange(i as int, x.len() as int);
            let y1 = y.subrange(i as int, y.len() as int);
            assert(x1[0] == a@[i as int]@ && y1[0] == b@[i as int]@);
        }
        comes_before(a[i].as_str(), b[i].as_str())
    }
}

/// The files of the user's layers.
pub open spec fn user_files(layers: Seq<ConfigLayerSource>) -> Seq<Seq<Seq<char>>>
    decreases layers.len(),
{
    if layers.len() == 0 {
        Seq::empty()
    } else {
        match layers.last() {
            ConfigLayerSource::User { file } => user_files(layers.drop_last()).push(
                file.deep_view(),
            ),
            ConfigLayerSource::Other => user_files(layers.drop_last()),
        }
    }
}

/// Whether a list of paths is sorted, with no path twice.
pub open spec fn sorted_paths(paths: Seq<Seq<Seq<char>>>) -> bool {
    forall|i: int, j: int|
        0 <= i < j < paths.len() ==> path_before(#[trigger] paths[i], #[trigger] paths[j])
}

/// Inserts a path into a sorted list, unless it is there.
fn insert_path(paths: &mut Vec<Vec<String>>, path: &Vec<String>)
    requires
        sorted_paths(old(paths).deep_view()),
    ensures
        sorted_paths(final(paths).deep_view()),
        forall|p: Seq<Seq<char>>| #[trigger]
            final(paths).deep_view().contains(p) <==> old(paths).deep_view().contains(p) || p
                == path.deep_view(),
{
    let ghost was = paths.deep_view();
    let ghost key = path.deep_view();
    let mut at: usize = 0;
    while at < paths.len() && leads_before(&paths[at], path)
        invariant
            at <= paths@.len(),
            paths.deep_view() == was,
            key == path.deep_view(),
            forall|k: int| 0 <= k < at ==> path_before(#[trigger] was[k], key),
        ensures
            at <= paths@.len(),
            paths.deep_view() == was,
            forall|k: int| 0 <= k < at ==> path_before(#[trigger] was[k], key),
            at < paths@.len() ==> !path_before(was[at as int], key),
        decreases paths@.len() - at,
    {
        assert(was[at as int] == paths@[at as int].deep_view());
        at += 1;
    }
    assert(was.len() == paths@.len());
    if at < paths.len() && paths[at].same(path) {
        assert(was[at as int] == paths@[at as int].deep_view());
        assert(was.contains(key));
        return;
    }
    let copy = path.duplicate();
    paths.insert(at, copy);
    proof {
        let now = paths.deep_view();
        assert(now =~= was.insert(at as int, key));
        if at < was.len() {
            assert(was[at as int] != key);
            path_order_total(was[at as int], key);
        }
        assert forall|i: int, j: int| 0 <= i < j < now.len() implies path_before(
            #[trigger] now[i],
            #[trigger] now[j],
        ) by {
            if j == at {
                assert(now[i] == was[i]);
            } else if i == at {
                assert(now[j] == was[j - 1]);
                if j - 1 > at {
                    assert(path_before(was[at as int], was[j - 1]));
                    path_order_transitive(key, was[at as int], was[j - 1]);
                }
            } else {
                let i1 = if i < at {
                    i
                } else {
                    i - 1
                };
                let j1 = if j < at {
                    j
                } else {
                    j - 1
                };
                assert(now[i] == was[i1] && now[j] == was[j1]);
            }
        }
        assert forall|p: Seq<Seq<char>>| #[trigger] now.contains(p) <==> was.contains(p) || p
            == key by {
            if now.contains(p) {
                let i = choose|i: int| 0 <= i < now.len() && now[i] == p;
                if i != at {
                    let i1 = if i < at {
                        i
                    } else {
                        i - 1
                    };
                    assert(was[i1] == p);
                }
            }
            if was.contains(p) {
                let i = choose|i: int| 0 <= i < was.len() && was[i] == p;
                let i1 = if i < at {
                    i
                } else {
                    i + 1
                };
                assert(now[i1] == p);
            }
            if p == key {
                assert(now[at as int] == p);
            }
        }
    }
}

/// The files to watch: those of the user's layers, or the default file where there is none, in
/// order and each once.
pub fn config_paths(layers: &Vec<ConfigLayerSource>, default_file: &Vec<String>) -> (r: Vec<
    Vec<String>,
>)
    ensures
        sorted_paths(r.deep_view()),
        forall|p: Seq<Seq<char>>| #[trigger]
            r.deep_view().contains(p) <==> (if user_files(layers@).len() == 0 {
                p == default_file.deep_view()
            } else {
                user_files(layers@).contains(p)
            }),
{
    let mut r: Vec<Vec<String>> = Vec::new();
    let mut any = false;
    let mut i: usize = 0;
    assert(layers@.take(0) =~= Seq::empty());
    while i < layers.len()
        invariant
            i <= layers@.len(),
            sorted_paths(r.deep_view()),
            any == (user_files(layers@.take(i as int)).len() > 0),
            forall|p: Seq<Seq<char>>| #[trigger]
                r.deep_view().contains(p) <==> user_files(layers@.take(i as int)).contains(p),
        decreases layers@.len() - i,
    {
        proof {
            assert(layers@.take(i + 1).drop_last() =~= layers@.take(i as int));
        }
        match &layers[i] {
            ConfigLayerSource::User { file } => {
                insert_path(&mut r, file);
                any = true;
                proof {
                    let before = user_files(layers@.take(i as int));
                    let after = user_files(layers@.take(i + 1));
                    assert(after == before.push(file.deep_view()));
                    assert forall|p: Seq<Seq<char>>| #[trigger]
                        after.contains(p) <==> before.contains(p) || p == file.deep_view() by {
                        if before.contains(p) {
                            let k = choose|k: int| 0 <= k < before.len() && before[k] == p;
                            assert(after[k] == p);
                        }
                        if p == file.deep_view() {
                            assert(after[before.len() as int] == p);
                        }
                        if after.contains(p) {
                            let k = choose|k: int| 0 <= k < after.len() && after[k] == p;
                            if k < before.len() {
                                assert(before[k] == p);
                            }
                        }
                    }
                }
            },
            ConfigLayerSource::Other => {},
        }
        i += 1;
    }
    assert(layers@.take(i as int) =~= layers@);
    if !any {
        proof {
            assert forall|p: Seq<Seq<char>>| !#[trigger] r.deep_view().contains(p) by {
                assert(!user_files(layers@).contains(p));
            }
        }
        insert_path(&mut r, default_file);
    }
    r
}

/// A file is one of the user's exactly where some layer of the user has it.
pub proof fn user_files_are_those_of_the_layers(
    layers: Seq<ConfigLayerSource>,
    path: Seq<Seq<char>>,
)
    ensures
        user_files(layers).contains(path) <==> exists|i: int|
            0 <= i < layers.len() && (#[trigger] layers[i]) is User && layers[i]->file.deep_view()
                == path,
        user_files(layers).len() == 0 <==> forall|i: int|
            0 <= i < layers.len() ==> (#[trigger] layers[i]) is Other,
    decreases layers.len(),
{
    if layers.len() > 0 {
        let front = layers.drop_last();
        let before = user_files(front);
        let all = user_files(layers);
        user_files_are_those_of_the_layers(front, path);
        let last = layers.len() - 1;
        if all.contains(path) {
            let k = choose|k: int| 0 <= k < all.len() && all[k] == path;
            if k < before.len() {
                assert(before[k] == path);
                let i = choose|i: int|
                    0 <= i < front.len() && (#[trigger] front[i]) is User
                        && front[i]->file.deep_view() == path;
                assert(layers[i] is User);
            } else {
                assert(layers[last] is User);
            }
        }
        if exists|i: int|
            0 <= i < layers.len() && (#[trigger] layers[i]) is User && layers[i]->file.deep_view()
                == path {
            let i = choose|i: int|
                0 <= i < layers.len() && (#[trigger] layers[i]) is User
                    && layers[i]->file.deep_view() == path;
            if i < last {
                assert(front[i] is User);
                let k = choose|k: int| 0 <= k < before.len() && before[k] == path;
                assert(all[k] == path);
            } else {
                assert(all[before.len() as int] == path);
            }
        }
        if forall|i: int| 0 <= i < layers.len() ==> (#[trigger] layers[i]) is Other {
            assert(layers[last] is Other);
            assert forall|i: int| 0 <= i < front.len() implies (#[trigger] front[i]) is Other by {
                assert(layers[i] is Other);
            }
        }
        if user_files(layers).len() == 0 {
            assert forall|i: int| 0 <= i < layers.len() implies (#[trigger] layers[i]) is Other by {
                if i < last {
                    assert(front[i] is Other);
                }
            }
        }
    }
}

/// A path comes before all that lie below it.
pub proof fn directories_come_before_their_files(path: Seq<Seq<char>>, below: Seq<Seq<char>>)
    requires
        below.len() > 0,
    ensures
        path_before(path, path + below),
        !path_before(path + below, path),
    decreases path.len(),
{
    if path.len() > 0 {
        let rest = path.subrange(1, path.len() as int);
        directories_come_before_their_files(rest, below);
        assert((path + below).subrange(1, (path + below).len() as int) =~= rest + below);
    }
}

} // verus!
