//! Paths of the host. They are bytes, and they are compared by their components:
//! repeated slashes, single dots after the start and a closing slash say nothing.

use vstd::prelude::*;

use crate::bytes;

verus! {

/// The component that stands for the root.
pub open spec fn root_part() -> Seq<u8> {
    seq![0x2fu8]
}

/// A single dot.
pub open spec fn dot() -> Seq<u8> {
    seq![0x2eu8]
}

/// Two dots.
pub open spec fn dot_dot() -> Seq<u8> {
    seq![0x2eu8, 0x2eu8]
}

/// Whether a stretch between slashes is a component wherever it stands.
pub open spec fn counts(part: Seq<u8>) -> bool {
    part.len() > 0 && part != dot()
}

/// The components of a path. An absolute path begins with the root; a relative
/// path may begin with a dot.
pub open spec fn components(path: Seq<u8>) -> Seq<Seq<u8>> {
    let parts = bytes::split(path, 0x2f);
    let first = if path.len() > 0 && path[0] == 0x2f {
        seq![root_part()]
    } else if parts[0].len() > 0 {
        seq![parts[0]]
    } else {
        Seq::empty()
    };
    first + parts.skip(1).filter(|p: Seq<u8>| counts(p))
}

/// Whether the path starts at the root.
pub open spec fn absolute(path: Seq<u8>) -> bool {
    path.len() > 0 && path[0] == 0x2f
}

/// The components of the path above, if there is one.
pub open spec fn parent(parts: Seq<Seq<u8>>) -> Option<Seq<Seq<u8>>> {
    if parts.len() == 0 || parts.last() == root_part() {
        None
    } else {
        Some(parts.drop_last())
    }
}

/// The name at the end of the path, if it ends in one.
pub open spec fn file_name(parts: Seq<Seq<u8>>) -> Option<Seq<u8>> {
    if parts.len() == 0 || parts.last() == root_part() || parts.last() == dot() || parts.last()
        == dot_dot() {
        None
    } else {
        Some(parts.last())
    }
}

/// The components of a path, taken apart.
pub struct Parts {
    pub list: Vec<Vec<u8>>,
}

impl View for Parts {
    type V = Seq<Seq<u8>>;

    open spec fn view(&self) -> Seq<Seq<u8>> {
        bytes::views(self.list@)
    }
}

fn is_dot(part: &[u8]) -> (r: bool)
    ensures
        r == (part@ == dot()),
{
    let r: bool = part.len() == 1 && part[0] == 0x2e;
    proof {
        if r {
            assert(part@ =~= dot());
        }
    }
    r
}

fn is_dot_dot(part: &[u8]) -> (r: bool)
    ensures
        r == (part@ == dot_dot()),
{
    let r: bool = part.len() == 2 && part[0] == 0x2e && part[1] == 0x2e;
    proof {
        if r {
            assert(part@ =~= dot_dot());
        }
    }
    r
}

fn is_root(part: &[u8]) -> (r: bool)
    ensures
        r == (part@ == root_part()),
{
    let r: bool = part.len() == 1 && part[0] == 0x2f;
    proof {
        if r {
            assert(part@ =~= root_part());
        }
    }
    r
}

/// Takes a path apart.
pub fn parts_of(path: &[u8]) -> (r: Parts)
    ensures
        r@ == components(path@),
{
    let pieces: Vec<Vec<u8>> = bytes::pieces(path, 0x2f);
    let ghost all = bytes::split(path@, 0x2f);
    let ghost keep = |p: Seq<u8>| counts(p);
    proof {
        bytes::lemma_split_nonempty(path@, 0x2f);
        assert(bytes::views(pieces@).len() == pieces@.len());
        assert(all[0] == pieces@[0]@);
    }
    let mut list: Vec<Vec<u8>> = Vec::new();
    if path.len() > 0 && path[0] == 0x2f {
        let mut root: Vec<u8> = Vec::new();
        root.push(0x2f);
        assert(root@ =~= root_part());
        list.push(root);
    } else if pieces[0].len() > 0 {
        let first: Vec<u8> = vstd::slice::slice_to_vec(pieces[0].as_slice());
        list.push(first);
    }
    let ghost first = bytes::views(list@);
    let ghost rest = all.skip(1);
    proof {
        assert(rest.take(0) =~= Seq::empty());
        assert(rest.take(0).filter(keep) =~= Seq::empty()) by {
            reveal(Seq::filter);
        }
        assert(bytes::views(list@) =~= first + rest.take(0).filter(keep));
    }
    for i in 1..pieces.len()
        invariant
            all == bytes::split(path@, 0x2f),
            bytes::views(pieces@) == all,
            all.len() == pieces@.len() >= 1,
            rest == all.skip(1),
            keep == (|p: Seq<u8>| counts(p)),
            bytes::views(list@) == first + rest.take(i - 1).filter(keep),
    {
        let ghost held = list@;
        proof {
            let next = rest.take(i as int);
            assert(next.drop_last() =~= rest.take(i - 1));
            assert(next.last() == pieces@[i as int]@);
            assert(next =~= next.drop_last().push(next.last()));
            next.drop_last().lemma_filter_push(next.last(), keep);
        }
        if pieces[i].len() > 0 && !is_dot(pieces[i].as_slice()) {
            let part: Vec<u8> = vstd::slice::slice_to_vec(pieces[i].as_slice());
            list.push(part);
            assert(bytes::views(list@) =~= bytes::views(held).push(part@));
            assert(bytes::views(list@) =~= first + rest.take(i as int).filter(keep));
        }
    }
    proof {
        assert(rest.take(rest.len() as int) =~= rest);
        if path@.len() > 0 && path@[0] == 0x2f {
            assert(first =~= seq![root_part()]);
        } else if all[0].len() > 0 {
            assert(first =~= seq![all[0]]);
        } else {
            assert(first =~= Seq::empty());
        }
    }
    Parts { list }
}

impl Parts {
    /// Whether two paths have the same components.
    pub fn same(&self, other: &Parts) -> (r: bool)
        ensures
            r == (self@ == other@),
    {
        if self.list.len() != other.list.len() {
            assert(self@.len() != other@.len());
            return false;
        }
        let r: bool = self.starts_with(other);
        proof {
            if r {
                assert(self@.subrange(0, other@.len() as int) =~= self@);
            }
        }
        r
    }

    /// Whether the path lies at or below the other.
    pub fn starts_with(&self, other: &Parts) -> (r: bool)
        ensures
            r == other@.is_prefix_of(self@),
    {
        if other.list.len() > self.list.len() {
            return false;
        }
        for i in 0..other.list.len()
            invariant
                other.list@.len() <= self.list@.len(),
                forall|k: int| 0 <= k < i ==> self@[k] == other@[k],
        {
            assert(self@[i as int] == self.list@[i as int]@);
            assert(other@[i as int] == other.list@[i as int]@);
            if !bytes::same(self.list[i].as_slice(), other.list[i].as_slice()) {
                proof {
                    if other@.is_prefix_of(self@) {
                        assert(self@.subrange(0, other@.len() as int)[i as int] == other@[i as int]);
                    }
                }
                return false;
            }
        }
        assert(self@.subrange(0, other@.len() as int) =~= other@);
        true
    }

    /// The path above, if there is one.
    pub fn parent(&self) -> (r: Option<Parts>)
        ensures
            match r {
                Some(p) => parent(self@) == Some(p@),
                None => parent(self@) is None,
            },
    {
        let n: usize = self.list.len();
        if n == 0 {
            return None;
        }
        assert(self@.last() == self.list@[n - 1]@);
        if is_root(self.list[n - 1].as_slice()) {
            return None;
        }
        let r: Parts = self.first(n - 1);
        assert(r@ =~= self@.drop_last());
        Some(r)
    }

    /// The first components.
    pub fn first(&self, n: usize) -> (r: Parts)
        requires
            n <= self@.len(),
        ensures
            r@ == self@.take(n as int),
    {
        let mut list: Vec<Vec<u8>> = Vec::new();
        for i in 0..n
            invariant
                n <= self.list@.len(),
                bytes::views(list@) == self@.take(i as int),
        {
            let ghost held = list@;
            let part: Vec<u8> = vstd::slice::slice_to_vec(self.list[i].as_slice());
            list.push(part);
            assert(bytes::views(list@) =~= bytes::views(held).push(part@));
            assert(self@.take(i + 1) =~= self@.take(i as int).push(self@[i as int]));
        }
        Parts { list }
    }

    /// The name at the end of the path, if it ends in one.
    pub fn file_name(&self) -> (r: Option<&Vec<u8>>)
        ensures
            match r {
                Some(name) => file_name(self@) == Some(name@),
                None => file_name(self@) is None,
            },
    {
        let n: usize = self.list.len();
        if n == 0 {
            return None;
        }
        assert(self@.last() == self.list@[n - 1]@);
        let last: &Vec<u8> = &self.list[n - 1];
        if is_root(last.as_slice()) || is_dot(last.as_slice()) || is_dot_dot(last.as_slice()) {
            return None;
        }
        Some(last)
    }

    /// The same path, with the components of another from the given one on.
    pub fn joined(&self, other: &Parts, from: usize) -> (r: Parts)
        requires
            from <= other@.len(),
        ensures
            r@ == self@ + other@.skip(from as int),
    {
        let mut out: Parts = self.first(self.list.len());
        proof {
            assert(self@.take(self@.len() as int) =~= self@);
            assert(self@ + other@.subrange(from as int, from as int) =~= self@);
        }
        let total: usize = other.list.len();
        for i in from..total
            invariant
                total == other.list@.len(),
                from <= i <= total,
                out@ == self@ + other@.subrange(from as int, i as int),
        {
            let ghost held = out.list@;
            let part: Vec<u8> = vstd::slice::slice_to_vec(other.list[i].as_slice());
            out.list.push(part);
            proof {
                assert(other@[i as int] == other.list@[i as int]@);
                assert(out@ =~= bytes::views(held).push(part@));
                assert(out@ =~= self@ + other@.subrange(from as int, i + 1));
            }
        }
        proof {
            assert(other@.subrange(from as int, total as int) =~= other@.skip(from as int));
        }
        out
    }

    /// Whether the path ends in the given name.
    pub fn named(&self, name: &str) -> (r: bool)
        ensures
            r == (file_name(self@) == Some(bytes::encoded(name@))),
    {
        match self.file_name() {
            Some(found) => bytes::are(found.as_slice(), name),
            None => false,
        }
    }

    /// Whether the path is the other with one name below it.
    pub fn is_below(&self, base: &Parts, name: &str) -> (r: bool)
        ensures
            r == (self@ == base@.push(bytes::encoded(name@))),
    {
        let n: usize = self.list.len();
        if n == 0 || n - 1 != base.list.len() {
            assert(self@.len() != base@.len() + 1);
            return false;
        }
        let above: Parts = self.first(n - 1);
        assert(self@[n - 1] == self.list@[n - 1]@);
        let r: bool = above.same(base) && bytes::are(self.list[n - 1].as_slice(), name);
        proof {
            if r {
                assert(self@ =~= base@.push(bytes::encoded(name@)));
            } else if self@ == base@.push(bytes::encoded(name@)) {
                assert(above@ =~= base@);
            }
        }
        r
    }
}

/// Adding a plain name to a path adds one component: no other change is possible.
pub proof fn law_parent_undoes_a_name(parts: Seq<Seq<u8>>, name: Seq<u8>)
    requires
        name != root_part(),
    ensures
        parent(parts.push(name)) == Some(parts),
{
    assert(parts.push(name).drop_last() =~= parts);
}

/// A path is walked name by name: a name after a slash is one step further, while an
/// empty name or a dot is none. The root is a step of its own.
pub proof fn law_paths_are_walked_by_name(path: Seq<u8>, name: Seq<u8>)
    requires
        path.len() > 0,
        !name.contains(0x2f),
    ensures
        name.len() > 0 && name != seq![0x2eu8] ==> components(path.push(0x2f) + name) == components(
            path,
        ).push(name),
        name.len() == 0 || name == seq![0x2eu8] ==> components(path.push(0x2f) + name)
            == components(path),
        name.len() > 0 ==> components(name) == seq![name] && components(seq![0x2fu8] + name) == (
        if name == seq![0x2eu8] {
            seq![seq![0x2fu8]]
        } else {
            seq![seq![0x2fu8], name]
        }),
        components(seq![0x2fu8]) == seq![seq![0x2fu8]],
        components(Seq::<u8>::empty()).len() == 0,
{
    reveal_with_fuel(Seq::filter, 3);
    let kept = |p: Seq<u8>| counts(p);
    let whole = path.push(0x2f) + name;
    bytes::law_separators_cut(path, 0x2f, name);
    bytes::law_clean_bytes_are_one_piece(name, 0x2f);
    bytes::lemma_split_nonempty(path, 0x2f);
    let parts = bytes::split(path, 0x2f);
    let all = bytes::split(whole, 0x2f);
    assert(all == parts + seq![name]);
    assert(all.skip(1) =~= parts.skip(1) + seq![name]);
    assert(all[0] == parts[0]);
    assert(whole[0] == path[0]);
    Seq::filter_distributes_over_add(parts.skip(1), seq![name], kept);
    assert(seq![name].drop_last() =~= Seq::empty());
    assert(seq![name].filter(kept) =~= (if counts(name) {
        seq![name]
    } else {
        seq![]
    }));
    let first = if path[0] == 0x2f {
        seq![root_part()]
    } else if parts[0].len() > 0 {
        seq![parts[0]]
    } else {
        Seq::empty()
    };
    assert(components(path) == first + parts.skip(1).filter(kept));
    assert(components(whole) == first + all.skip(1).filter(kept));
    if counts(name) {
        assert(components(whole) =~= components(path).push(name));
    } else {
        assert(components(whole) =~= components(path));
    }
    let nothing = Seq::<u8>::empty();
    assert(!nothing.contains(0x2f));
    bytes::law_clean_bytes_are_one_piece(nothing, 0x2f);
    assert(bytes::split(nothing, 0x2f).skip(1) =~= Seq::empty());
    assert(components(nothing) =~= Seq::empty());
    bytes::law_separators_cut(nothing, 0x2f, nothing);
    assert(nothing.push(0x2f) + nothing =~= seq![0x2fu8]);
    let root = bytes::split(seq![0x2fu8], 0x2f);
    assert(root.skip(1) =~= seq![nothing]);
    assert(root.skip(1).drop_last() =~= Seq::empty());
    assert(root.skip(1).filter(kept) =~= Seq::empty());
    assert(components(seq![0x2fu8]) =~= seq![seq![0x2fu8]]);
    if name.len() > 0 {
        assert(name.contains(name[0]));
        assert(bytes::split(name, 0x2f).skip(1) =~= Seq::empty());
        assert(components(name) =~= seq![name]);
        bytes::law_separators_cut(nothing, 0x2f, name);
        assert(nothing.push(0x2f) + name =~= seq![0x2fu8] + name);
        let below = bytes::split(seq![0x2fu8] + name, 0x2f);
        assert(below.skip(1) =~= seq![name]);
        assert(components(seq![0x2fu8] + name) =~= (if name == seq![0x2eu8] {
            seq![seq![0x2fu8]]
        } else {
            seq![seq![0x2fu8], name]
        }));
    }
}

/// The last name of a path is its file name, unless it leads elsewhere.
pub proof fn law_last_names_are_file_names(parts: Seq<Seq<u8>>, name: Seq<u8>)
    ensures
        name != seq![0x2fu8] && name != seq![0x2eu8] && name != seq![0x2eu8, 0x2eu8] ==> file_name(
            parts.push(name),
        ) == Some(name),
        name == seq![0x2fu8] || name == seq![0x2eu8] || name == seq![0x2eu8, 0x2eu8] ==> file_name(
            parts.push(name),
        ) is None,
        file_name(Seq::empty()) is None,
        parent(parts.push(seq![0x2fu8])) is None,
        parent(Seq::empty()) is None,
{
    assert(parts.push(name).last() == name);
    assert(parts.push(seq![0x2fu8]).last() == seq![0x2fu8]);
}

} // verus!
