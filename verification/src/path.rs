//! Unix paths as byte strings: their components, and what is cut off or added at their end.
//!
//! A path is read as a lead (the root directory, the current directory written out, or nothing)
//! followed by names. Repeated and trailing separators count for nothing, and neither does a `.`
//! after the start.
use vstd::prelude::*;

verus! {

/// The separator `/`.
pub const SEPARATOR: u8 = 47;

/// The byte `.`.
pub const DOT: u8 = 46;

/// What a path starts with, before its first name.
#[derive(Debug, Clone, Copy, PartialEq, Eq, Structural)]
pub enum Lead {
    /// Nothing: the path is relative.
    Nothing,
    /// A leading separator: the path is absolute.
    Root,
    /// A leading `.` component: the path is relative.
    CurDir,
}

impl Lead {
    /// Whether the path is absolute.
    pub open spec fn is_root(self) -> bool {
        self == Lead::Root
    }
}

/// A path as the contracts speak of it.
#[verifier::ext_equal]
pub struct PathView {
    /// What stands before the first name.
    pub lead: Lead,
    /// The names in order, `..` among them.
    pub names: Seq<Seq<u8>>,
}

/// Where the last piece of `p` starts: right after its last separator, or at 0.
pub open spec fn piece_start(p: Seq<u8>) -> int
    decreases p.len(),
{
    if p.len() == 0 || p.last() == SEPARATOR {
        p.len() as int
    } else {
        piece_start(p.drop_last())
    }
}

/// Whether a piece between separators is a name: an empty piece and a lone `.` are not.
pub open spec fn is_name(piece: Seq<u8>) -> bool {
    piece.len() > 0 && piece != seq![DOT]
}

/// The names in `p`, from left to right.
pub open spec fn names(p: Seq<u8>) -> Seq<Seq<u8>>
    decreases p.len(),
{
    let start = piece_start(p);
    let before = if 0 < start <= p.len() {
        names(p.take(start - 1))
    } else {
        Seq::empty()
    };
    if is_name(p.skip(start)) {
        before.push(p.skip(start))
    } else {
        before
    }
}

/// What `p` starts with.
pub open spec fn lead(p: Seq<u8>) -> Lead {
    if p.len() > 0 && p[0] == SEPARATOR {
        Lead::Root
    } else if p.len() > 0 && p[0] == DOT && (p.len() == 1 || p[1] == SEPARATOR) {
        Lead::CurDir
    } else {
        Lead::Nothing
    }
}

/// `p` taken apart.
pub open spec fn parsed(p: Seq<u8>) -> PathView {
    PathView { lead: lead(p), names: names(p) }
}

/// Whether a path ends in a component that can be cut off: a name, or a `.` that stands alone.
pub open spec fn has_parent(v: PathView) -> bool {
    v.names.len() > 0 || v.lead == Lead::CurDir
}

/// A path without its last component.
pub open spec fn without_last(v: PathView) -> PathView {
    if v.names.len() > 0 {
        PathView { lead: v.lead, names: v.names.drop_last() }
    } else {
        PathView { lead: Lead::Nothing, names: Seq::empty() }
    }
}

/// Whether `k` bytes are the shortest prefix of `p` that reads as `v`.
pub open spec fn is_shortest(p: Seq<u8>, v: PathView, k: int) -> bool {
    &&& 0 <= k <= p.len()
    &&& parsed(p.take(k)) == v
    &&& forall|j: int| 0 <= j < k ==> parsed(#[trigger] p.take(j)) != v
}

/// The path without its final component: the shortest prefix that reads so. There is none for a
/// path that ends in the root directory and for the empty path.
pub open spec fn spec_parent(p: Seq<u8>) -> Option<Seq<u8>> {
    if has_parent(parsed(p)) {
        Some(p.take(choose|k: int| is_shortest(p, without_last(parsed(p)), k)))
    } else {
        None
    }
}

/// The last name of a path, unless it is `..`.
pub open spec fn spec_file_name(p: Seq<u8>) -> Option<Seq<u8>> {
    if names(p).len() > 0 && names(p).last() != seq![DOT, DOT] {
        Some(names(p).last())
    } else {
        None
    }
}

/// Whether the last `.` of `name` stands at `d`.
pub open spec fn is_final_dot(name: Seq<u8>, d: int) -> bool {
    &&& 0 <= d < name.len()
    &&& name[d] == DOT
    &&& forall|i: int| d < i < name.len() ==> name[i] != DOT
}

/// The extension of a path: what follows the final `.` of its file name, unless that `.` starts the
/// file name.
pub open spec fn spec_extension(p: Seq<u8>) -> Option<Seq<u8>> {
    match spec_file_name(p) {
        Some(name) => if exists|d: int| 0 < d && is_final_dot(name, d) {
            let dot = choose|d: int| 0 < d && is_final_dot(name, d);
            Some(name.skip(dot + 1))
        } else {
            None
        },
        None => None,
    }
}

/// The path without what trails its last component: the shortest prefix that reads the same.
pub open spec fn trimmed(p: Seq<u8>) -> Seq<u8> {
    p.take(choose|k: int| is_shortest(p, parsed(p), k))
}

/// The path without its extension and the `.` before it.
pub open spec fn spec_without_extension(p: Seq<u8>) -> Seq<u8> {
    match spec_extension(p) {
        Some(ext) => trimmed(p).take(trimmed(p).len() - ext.len() - 1),
        None => p,
    }
}

/// Two paths put together: an absolute `tail` stands alone, a relative one follows `base` after a
/// separator.
pub open spec fn spec_join(base: Seq<u8>, tail: Seq<u8>) -> Seq<u8> {
    if tail.len() > 0 && tail[0] == SEPARATOR {
        tail
    } else if base.len() > 0 && base.last() != SEPARATOR {
        base.push(SEPARATOR) + tail
    } else {
        base + tail
    }
}

proof fn lemma_piece_start(p: Seq<u8>)
    ensures
        0 <= piece_start(p) <= p.len(),
        forall|i: int| piece_start(p) <= i < p.len() ==> p[i] != SEPARATOR,
        piece_start(p) > 0 ==> p[piece_start(p) - 1] == SEPARATOR,
    decreases p.len(),
{
    if p.len() != 0 && p.last() != SEPARATOR {
        let q = p.drop_last();
        lemma_piece_start(q);
        assert forall|i: int| piece_start(p) <= i < p.len() implies p[i] != SEPARATOR by {
            if i < q.len() {
                assert(p[i] == q[i]);
            }
        }
    }
}

/// The start of the last piece is the only position with a separator right before it and none
/// after it.
proof fn lemma_piece_start_unique(p: Seq<u8>, s: int)
    requires
        0 <= s <= p.len(),
        forall|i: int| s <= i < p.len() ==> p[i] != SEPARATOR,
        s > 0 ==> p[s - 1] == SEPARATOR,
    ensures
        piece_start(p) == s,
{
    lemma_piece_start(p);
}

/// Where the last piece of `p[..end]` starts.
fn find_piece_start(p: &[u8], end: usize) -> (start: usize)
    requires
        end <= p@.len(),
    ensures
        start == piece_start(p@.take(end as int)),
        start <= end,
{
    let mut start: usize = end;
    while start > 0 && p[start - 1] != SEPARATOR
        invariant
            start <= end <= p@.len(),
            forall|i: int| start <= i < end ==> p@[i] != SEPARATOR,
        decreases start,
    {
        start = start - 1;
    }
    proof {
        lemma_piece_start_unique(p@.take(end as int), start as int);
    }
    start
}

/// Whether `p[start..end]` is a name.
fn range_is_name(p: &[u8], start: usize, end: usize) -> (yes: bool)
    requires
        start <= end <= p@.len(),
    ensures
        yes <==> is_name(p@.subrange(start as int, end as int)),
{
    let ghost piece = p@.subrange(start as int, end as int);
    if start == end {
        false
    } else if end - start == 1 && p[start] == DOT {
        assert(piece =~= seq![DOT]);
        false
    } else {
        proof {
            if piece == seq![DOT] {
                assert(piece.len() == 1);
                assert(piece[0] == p@[start as int]);
            }
        }
        true
    }
}

/// The last name of `p[..end]`, as a range of positions.
fn find_last_name(p: &[u8], end: usize) -> (range: Option<(usize, usize)>)
    requires
        end <= p@.len(),
    ensures
        match range {
            Some((start, stop)) => {
                &&& start < stop <= end
                &&& start == piece_start(p@.take(stop as int))
                &&& is_name(p@.subrange(start as int, stop as int))
                &&& names(p@.take(end as int)) == names(p@.take(stop as int))
                &&& names(p@.take(stop as int)).len() > 0
                &&& names(p@.take(stop as int)).last() == p@.subrange(start as int, stop as int)
                &&& names(p@.take(stop as int)).drop_last() == names(p@.take(start as int))
            },
            None => names(p@.take(end as int)).len() == 0,
        },
{
    let mut stop: usize = end;
    loop
        invariant
            stop <= end <= p@.len(),
            names(p@.take(end as int)) == names(p@.take(stop as int)),
        decreases stop,
    {
        let start = find_piece_start(p, stop);
        let ghost q = p@.take(stop as int);
        assert(q.skip(start as int) =~= p@.subrange(start as int, stop as int));
        assert(start > 0 ==> q.take(start - 1) =~= p@.take(start - 1));
        if range_is_name(p, start, stop) {
            proof {
                lemma_piece_start(q);
                lemma_names_after_separator(p@, start as int);
                assert(names(q).drop_last() =~= names(p@.take(start as int)));
            }
            return Some((start, stop));
        }
        if start == 0 {
            return None;
        }
        stop = start - 1;
    }
}

/// A separator at the end adds no name.
proof fn lemma_names_after_separator(p: Seq<u8>, start: int)
    requires
        0 <= start <= p.len(),
        start > 0 ==> p[start - 1] == SEPARATOR,
    ensures
        names(p.take(start)) == (if start > 0 {
            names(p.take(start - 1))
        } else {
            Seq::empty()
        }),
{
    let q = p.take(start);
    lemma_piece_start_unique(q, start);
    assert(q.skip(start) =~= Seq::empty());
    if start > 0 {
        assert(q.take(start - 1) =~= p.take(start - 1));
    }
}

/// A longer prefix has no fewer names.
proof fn lemma_names_grow(p: Seq<u8>, j: int, k: int)
    requires
        0 <= j <= k <= p.len(),
    ensures
        names(p.take(j)).len() <= names(p.take(k)).len(),
    decreases k - j,
{
    if j < k {
        lemma_names_grow(p, j, k - 1);
        let q = p.take(k);
        let r = p.take(k - 1);
        assert(q.drop_last() =~= r);
        lemma_piece_start(q);
        if q.last() == SEPARATOR {
            lemma_names_after_separator(p, k);
        } else {
            let s = piece_start(q);
            assert(piece_start(r) == s);
            if s > 0 {
                assert(q.take(s - 1) =~= r.take(s - 1));
            }
            if is_name(r.skip(s)) {
                assert(q.skip(s) =~= r.skip(s).push(q.last()));
                if q.skip(s) == seq![DOT] {
                    assert(q.skip(s).len() == 1);
                }
                assert(is_name(q.skip(s)));
            }
        }
    }
}


/// A prefix that stops inside the last name of `p[..stop]`, or before it, has other names.
proof fn lemma_shorter_differs(p: Seq<u8>, start: int, stop: int, j: int)
    requires
        0 <= start < stop <= p.len(),
        start == piece_start(p.take(stop)),
        is_name(p.subrange(start, stop)),
        0 <= j < stop,
    ensures
        names(p.take(j)) != names(p.take(stop)),
{
    let q = p.take(stop);
    lemma_piece_start(q);
    assert(q.skip(start) =~= p.subrange(start, stop));
    assert(start > 0 ==> q.take(start - 1) =~= p.take(start - 1));
    lemma_names_after_separator(p, start);
    assert(names(q).len() == names(p.take(start)).len() + 1);
    if j <= start {
        lemma_names_grow(p, j, start);
    } else {
        let r = p.take(j);
        assert(r.skip(start) =~= p.subrange(start, j));
        lemma_piece_start_unique(r, start);
        assert(start > 0 ==> r.take(start - 1) =~= p.take(start - 1));
        if is_name(r.skip(start)) {
            assert(names(r).last() == r.skip(start));
            assert(names(q).last() == q.skip(start));
            assert(r.skip(start).len() != q.skip(start).len());
        }
    }
}

/// The bytes of the lead.
pub open spec fn lead_len(l: Lead) -> int {
    match l {
        Lead::Nothing => 0,
        _ => 1,
    }
}

/// A path of which only the lead is left has no name, and the lead of the whole.
proof fn lemma_lead_alone(p: Seq<u8>)
    ensures
        lead_len(lead(p)) <= p.len(),
        parsed(p.take(lead_len(lead(p)))) == (PathView { lead: lead(p), names: Seq::empty() }),
{
    let q = p.take(lead_len(lead(p)));
    match lead(p) {
        Lead::Nothing => {
            assert(q =~= Seq::empty());
            assert(q.skip(0) =~= Seq::empty());
        },
        Lead::Root => {
            lemma_names_after_separator(p, 1);
            assert(p.take(0).skip(0) =~= Seq::empty());
        },
        Lead::CurDir => {
            lemma_piece_start_unique(q, 0);
            assert(q.skip(0) =~= seq![DOT]);
        },
    }
}

/// A prefix that ends in a name has the lead of the whole.
proof fn lemma_lead_of_prefix(p: Seq<u8>, start: int, stop: int)
    requires
        0 <= start < stop <= p.len(),
        start == piece_start(p.take(stop)),
        is_name(p.subrange(start, stop)),
    ensures
        lead(p.take(stop)) == lead(p),
{
    let q = p.take(stop);
    if p[0] == DOT && stop == 1 {
        assert(p.subrange(start, stop) =~= seq![DOT]);
    }
}

/// There is one shortest prefix at most.
proof fn lemma_shortest_unique(p: Seq<u8>, v: PathView, j: int, k: int)
    requires
        is_shortest(p, v, j),
        is_shortest(p, v, k),
    ensures
        j == k,
{
}

/// What `p` starts with.
fn find_lead(p: &[u8]) -> (l: Lead)
    ensures
        l == lead(p@),
{
    if p.len() > 0 && p[0] == SEPARATOR {
        Lead::Root
    } else if p.len() > 0 && p[0] == DOT && (p.len() == 1 || p[1] == SEPARATOR) {
        Lead::CurDir
    } else {
        Lead::Nothing
    }
}

/// The path without its final component, if there is one.
pub fn parent(p: &[u8]) -> (dir: Option<Vec<u8>>)
    ensures
        match dir {
            Some(q) => spec_parent(p@) == Some(q@),
            None => spec_parent(p@) is None,
        },
{
    let ghost v = without_last(parsed(p@));
    assert(p@.take(p@.len() as int) =~= p@);
    let l = find_lead(p);
    let cut: usize = match find_last_name(p, p.len()) {
        None => {
            match l {
                Lead::CurDir => {},
                _ => {
                    return None;
                },
            }
            proof {
                assert(p@.take(0).skip(0) =~= Seq::empty());
                assert(parsed(p@.take(0)) =~= v);
                assert(is_shortest(p@, v, 0));
            }
            0
        },
        Some((start, stop)) => {
            proof {
                lemma_lead_of_prefix(p@, start as int, stop as int);
            }
            match find_last_name(p, start) {
                Some((start_before, stop_before)) => {
                    proof {
                        let k = stop_before as int;
                        lemma_lead_of_prefix(p@, start_before as int, k);
                        assert(parsed(p@.take(k)) =~= v);
                        assert forall|j: int| 0 <= j < k implies parsed(#[trigger] p@.take(j)) != v by {
                            lemma_shorter_differs(p@, start_before as int, k, j);
                        }
                        assert(is_shortest(p@, v, k));
                    }
                    stop_before
                },
                None => {
                    proof {
                        lemma_lead_alone(p@);
                        let k = lead_len(lead(p@));
                        assert(parsed(p@.take(k)) =~= v);
                        if k > 0 {
                            assert(lead(p@.take(0)) == Lead::Nothing);
                        }
                        assert(is_shortest(p@, v, k));
                    }
                    match l {
                        Lead::Nothing => 0,
                        _ => 1,
                    }
                },
            }
        },
    };
    proof {
        let k = choose|k: int| is_shortest(p@, v, k);
        lemma_shortest_unique(p@, v, k, cut as int);
    }
    Some(vstd::slice::slice_to_vec(vstd::slice::slice_subrange(p, 0, cut)))
}

/// Whether the last name of `p` is `name`.
pub fn ends_with_name(p: &[u8], name: &[u8]) -> (yes: bool)
    ensures
        yes <==> names(p@).len() > 0 && names(p@).last() == name@,
{
    assert(p@.take(p@.len() as int) =~= p@);
    match find_last_name(p, p.len()) {
        Some((start, stop)) => same_bytes(vstd::slice::slice_subrange(p, start, stop), name),
        None => false,
    }
}

/// Whether two byte strings are equal.
pub(crate) fn same_bytes(a: &[u8], b: &[u8]) -> (yes: bool)
    ensures
        yes <==> a@ == b@,
{
    if a.len() != b.len() {
        return false;
    }
    let mut i: usize = 0;
    while i < a.len()
        invariant
            i <= a@.len() == b@.len(),
            a@.take(i as int) == b@.take(i as int),
        decreases a@.len() - i,
    {
        if a[i] != b[i] {
            return false;
        }
        assert(a@.take(i + 1) =~= a@.take(i as int).push(a@[i as int]));
        assert(b@.take(i + 1) =~= b@.take(i as int).push(b@[i as int]));
        i = i + 1;
    }
    assert(a@.take(i as int) =~= a@);
    assert(b@.take(i as int) =~= b@);
    true
}

/// Puts `tail` after `base`.
pub fn join(base: &[u8], tail: &[u8]) -> (path: Vec<u8>)
    ensures
        path@ == spec_join(base@, tail@),
{
    let absolute = tail.len() > 0 && tail[0] == SEPARATOR;
    let mut path: Vec<u8> = Vec::new();
    if !absolute {
        path.extend_from_slice(base);
        assert(path@ =~= base@);
        if base.len() > 0 && base[base.len() - 1] != SEPARATOR {
            path.push(SEPARATOR);
        }
    }
    let ghost before = path@;
    path.extend_from_slice(tail);
    assert(path@ =~= before + tail@);
    assert(path@ =~= spec_join(base@, tail@));
    path
}

/// The final `.` of the file name and the end of that name, where the path has an extension.
fn find_extension(p: &[u8]) -> (range: Option<(usize, usize)>)
    ensures
        match range {
            Some((dot, stop)) => {
                &&& dot < stop <= p@.len()
                &&& spec_extension(p@) == Some(p@.subrange(dot + 1, stop as int))
                &&& p@[dot as int] == DOT
                &&& trimmed(p@) == p@.take(stop as int)
            },
            None => spec_extension(p@) is None,
        },
{
    assert(p@.take(p@.len() as int) =~= p@);
    match find_last_name(p, p.len()) {
        None => None,
        Some((start, stop)) => {
            let ghost name = p@.subrange(start as int, stop as int);
            if stop - start == 2 && p[start] == DOT && p[start + 1] == DOT {
                assert(name =~= seq![DOT, DOT]);
                return None;
            }
            proof {
                if name == seq![DOT, DOT] {
                    assert(name.len() == 2);
                    assert(name[0] == p@[start as int] && name[1] == p@[start + 1]);
                }
                assert(spec_file_name(p@) == Some(name));
            }
            let mut dot: usize = stop;
            while dot > start && p[dot - 1] != DOT
                invariant
                    start <= dot <= stop <= p@.len(),
                    forall|i: int| dot <= i < stop ==> p@[i] != DOT,
                decreases dot,
            {
                dot = dot - 1;
            }
            if dot <= start + 1 {
                proof {
                    assert forall|d: int| !(0 < d && is_final_dot(name, d)) by {
                        if 0 < d && d < name.len() {
                            assert(name[d] == p@[start + d]);
                        }
                    }
                }
                None
            } else {
                proof {
                    let d = dot - 1 - start;
                    assert(name[d] == DOT);
                    assert forall|i: int| d < i < name.len() implies name[i] != DOT by {
                        assert(name[i] == p@[start + i]);
                    }
                    lemma_extension(p@, name, d);
                    assert(name.skip(d + 1) =~= p@.subrange(dot as int, stop as int));
                    lemma_trimmed(p@, start as int, stop as int);
                }
                Some((dot - 1, stop))
            }
        },
    }
}

/// The extension starts after the final `.` of the file name.
proof fn lemma_extension(p: Seq<u8>, name: Seq<u8>, d: int)
    requires
        spec_file_name(p) == Some(name),
        0 < d,
        is_final_dot(name, d),
    ensures
        spec_extension(p) == Some(name.skip(d + 1)),
{
    let chosen = choose|e: int| 0 < e && is_final_dot(name, e);
    assert(name[chosen] == DOT && name[d] == DOT);
    assert(chosen == d);
}

/// What ends in its last name is trimmed.
proof fn lemma_trimmed(p: Seq<u8>, start: int, stop: int)
    requires
        0 <= start < stop <= p.len(),
        start == piece_start(p.take(stop)),
        is_name(p.subrange(start, stop)),
        names(p.take(stop)) == names(p),
    ensures
        trimmed(p) == p.take(stop),
{
    lemma_lead_of_prefix(p, start, stop);
    assert forall|j: int| 0 <= j < stop implies parsed(#[trigger] p.take(j)) != parsed(p) by {
        lemma_shorter_differs(p, start, stop, j);
    }
    assert(is_shortest(p, parsed(p), stop));
    let k = choose|k: int| is_shortest(p, parsed(p), k);
    lemma_shortest_unique(p, parsed(p), k, stop);
}

/// The extension of a path, if it has one.
pub fn extension(p: &[u8]) -> (ext: Option<Vec<u8>>)
    ensures
        match ext {
            Some(e) => spec_extension(p@) == Some(e@),
            None => spec_extension(p@) is None,
        },
{
    match find_extension(p) {
        Some((dot, stop)) => Some(
            vstd::slice::slice_to_vec(vstd::slice::slice_subrange(p, dot + 1, stop)),
        ),
        None => None,
    }
}

/// The path without its extension and the `.` before it: it ends with its file stem. A path that
/// has no extension stays as it is.
pub fn without_extension(p: &[u8]) -> (path: Vec<u8>)
    ensures
        path@ == spec_without_extension(p@),
{
    match find_extension(p) {
        Some((dot, stop)) => {
            assert(p@.take(stop as int).take(dot as int) =~= p@.subrange(0, dot as int));
            vstd::slice::slice_to_vec(vstd::slice::slice_subrange(p, 0, dot))
        },
        None => vstd::slice::slice_to_vec(p),
    }
}

/// What stands before a separator and what stands after it are read apart.
proof fn lemma_names_across_separator(q: Seq<u8>, r: Seq<u8>)
    ensures
        names(q.push(SEPARATOR) + r) == names(q) + names(r),
    decreases r.len(),
{
    let whole = q.push(SEPARATOR) + r;
    let s = piece_start(r);
    let at = q.len() + 1 + s;
    lemma_piece_start(r);
    lemma_piece_start_unique(whole, at);
    assert(whole.skip(at) =~= r.skip(s));
    if s > 0 {
        lemma_names_across_separator(q, r.take(s - 1));
        assert(whole.take(at - 1) =~= q.push(SEPARATOR) + r.take(s - 1));
    } else {
        assert(whole.take(at - 1) =~= q);
    }
    assert(names(whole) =~= names(q) + names(r));
}

/// Joining a relative path adds its names behind those of the base, and the base is kept in front.
pub proof fn law_join_adds_names(base: Seq<u8>, tail: Seq<u8>)
    requires
        lead(tail) != Lead::Root,
    ensures
        names(spec_join(base, tail)) == names(base) + names(tail),
        base.is_prefix_of(spec_join(base, tail)),
        base.len() > 0 ==> lead(spec_join(base, tail)).is_root() == lead(base).is_root(),
{
    if base.len() == 0 {
        assert(base + tail =~= tail);
        assert(base.skip(0) =~= Seq::empty());
        assert(names(base) =~= Seq::empty());
        assert(names(base) + names(tail) =~= names(tail));
    } else if base.last() == SEPARATOR {
        let q = base.drop_last();
        assert(base =~= q.push(SEPARATOR));
        lemma_names_across_separator(q, tail);
        lemma_names_after_separator(base, base.len() as int);
        assert(base.take(base.len() as int) =~= base);
        assert(base.take(base.len() - 1) =~= q);
    } else {
        lemma_names_across_separator(base, tail);
    }
}

/// Joining an absolute path leaves nothing of the base.
pub proof fn law_join_absolute(base: Seq<u8>, tail: Seq<u8>)
    requires
        lead(tail) == Lead::Root,
    ensures
        spec_join(base, tail) == tail,
{
}

/// A path that ends in its last name is trimmed already.
proof fn lemma_ends_in_name(p: Seq<u8>, start: int)
    requires
        start == piece_start(p),
        is_name(p.skip(start)),
    ensures
        names(p).len() > 0,
        names(p).last() == p.skip(start),
        trimmed(p) == p,
{
    lemma_piece_start(p);
    assert(p.take(p.len() as int) =~= p);
    assert(p.subrange(start, p.len() as int) =~= p.skip(start));
    lemma_trimmed(p, start, p.len() as int);
}

/// An extension that is added to a path is its extension, and cutting it off gives the path back.
pub proof fn law_extension_round_trip(p: Seq<u8>, ext: Seq<u8>)
    requires
        p.len() > 0,
        p.last() != SEPARATOR,
        !ext.contains(DOT),
        !ext.contains(SEPARATOR),
        // `.` and an empty extension make `..`, which has no extension.
        ext.len() == 0 ==> is_name(p.skip(piece_start(p))),
    ensures
        spec_extension(p.push(DOT) + ext) == Some(ext),
        spec_without_extension(p.push(DOT) + ext) == p,
{
    let whole = p.push(DOT) + ext;
    let start = piece_start(p);
    lemma_piece_start(p);
    assert(start < p.len());
    assert forall|i: int| start <= i < whole.len() implies whole[i] != SEPARATOR by {
        if i > p.len() {
            assert(ext[i - p.len() - 1] == whole[i]);
            assert(ext.contains(whole[i]));
        }
    }
    assert(start > 0 ==> whole[start - 1] == p[start - 1]);
    lemma_piece_start_unique(whole, start);
    let name = whole.skip(start);
    let d = p.len() - start;
    assert(name.len() == d + 1 + ext.len());
    if name == seq![DOT] {
        assert(name.len() == 1);
    }
    lemma_ends_in_name(whole, start);
    if name == seq![DOT, DOT] {
        assert(name.len() == 2);
        assert(d == 1 && ext.len() == 0);
        assert(p.skip(start)[0] == name[0]);
        assert(p.skip(start) =~= seq![DOT]);
    }
    assert(name[d] == DOT);
    assert forall|i: int| d < i < name.len() implies name[i] != DOT by {
        assert(ext[i - d - 1] == name[i]);
        assert(ext.contains(name[i]));
    }
    lemma_extension(whole, name, d);
    assert(name.skip(d + 1) =~= ext);
    assert(whole.take(whole.len() - ext.len() - 1) =~= p);
}

/// Where the last name of a path stands.
proof fn lemma_last_name_range(p: Seq<u8>) -> (range: (int, int))
    requires
        names(p).len() > 0,
    ensures
        0 <= range.0 < range.1 <= p.len(),
        range.0 == piece_start(p.take(range.1)),
        is_name(p.subrange(range.0, range.1)),
        names(p.take(range.1)) == names(p),
        names(p).last() == p.subrange(range.0, range.1),
    decreases p.len(),
{
    let start = piece_start(p);
    lemma_piece_start(p);
    if is_name(p.skip(start)) {
        assert(p.take(p.len() as int) =~= p);
        assert(p.subrange(start, p.len() as int) =~= p.skip(start));
        (start, p.len() as int)
    } else {
        let q = p.take(start - 1);
        let range = lemma_last_name_range(q);
        assert(q.take(range.1) =~= p.take(range.1));
        assert(q.subrange(range.0, range.1) =~= p.subrange(range.0, range.1));
        range
    }
}

/// Cutting the extension off a joined path leaves the base in front, if a name was joined.
pub proof fn law_base_survives(base: Seq<u8>, tail: Seq<u8>)
    requires
        lead(tail) != Lead::Root,
        names(tail).len() > 0,
    ensures
        base.is_prefix_of(spec_without_extension(spec_join(base, tail))),
{
    let p = spec_join(base, tail);
    law_join_adds_names(base, tail);
    if let Some(ext) = spec_extension(p) {
        let (start, stop) = lemma_last_name_range(p);
        let q = p.take(stop);
        lemma_piece_start(q);
        lemma_trimmed(p, start, stop);
        if start < base.len() {
            if stop > base.len() {
                assert(q[base.len() as int] == p[base.len() as int]);
                assert(q[base.len() - 1] == p[base.len() - 1]);
            }
            lemma_names_grow(p, stop, base.len() as int);
            assert(p.take(base.len() as int) =~= base);
        }
        let name = p.subrange(start, stop);
        let dot = choose|d: int| 0 < d && is_final_dot(name, d);
        assert(ext == name.skip(dot + 1));
    }
}

/// A piece with no separator in it is one name, unless it is empty or a lone `.`.
pub proof fn law_one_piece_one_name(piece: Seq<u8>)
    requires
        !piece.contains(47u8),
    ensures
        piece.len() == 0 || piece == seq![46u8] ==> names(piece).len() == 0,
        piece.len() > 0 && piece != seq![46u8] ==> names(piece) == seq![piece],
{
    assert forall|i: int| 0 <= i < piece.len() implies piece[i] != SEPARATOR by {
        assert(piece.contains(piece[i]));
    }
    lemma_piece_start_unique(piece, 0);
    assert(piece.skip(0) =~= piece);
    if piece.len() > 0 && piece != seq![46u8] {
        assert(Seq::<Seq<u8>>::empty().push(piece) =~= seq![piece]);
    }
}

/// A separator parts names: those of a path are the ones before a separator and then the ones
/// behind it.
pub proof fn law_separators_part_names(before: Seq<u8>, behind: Seq<u8>)
    ensures
        names(before + seq![47u8] + behind) == names(before) + names(behind),
{
    lemma_names_across_separator(before, behind);
    assert(before + seq![47u8] + behind =~= before.push(SEPARATOR) + behind);
}

/// A path is absolute exactly if it starts with a separator, and starts with the current directory
/// exactly if it is `.` or starts with `.` and a separator.
pub proof fn law_lead_of_path(p: Seq<u8>)
    ensures
        lead(p) == Lead::Root <==> p.len() > 0 && p[0] == 47u8,
        lead(p) == Lead::CurDir <==> p == seq![46u8] || (p.len() > 1 && p[0] == 46u8 && p[1]
            == 47u8),
        lead(p).is_root() <==> lead(p) == Lead::Root,
{
    if p.len() == 1 && p[0] == 46u8 {
        assert(p =~= seq![46u8]);
    }
}

/// Where the parent of a path is cut off.
proof fn lemma_parent(p: Seq<u8>) -> (cut: int)
    requires
        has_parent(parsed(p)),
    ensures
        is_shortest(p, without_last(parsed(p)), cut),
        spec_parent(p) == Some(p.take(cut)),
{
    let v = without_last(parsed(p));
    let cut = if names(p).len() == 0 {
        assert(p.take(0).skip(0) =~= Seq::empty());
        assert(parsed(p.take(0)) =~= v);
        0
    } else {
        let (start, stop) = lemma_last_name_range(p);
        let q = p.take(stop);
        lemma_piece_start(q);
        lemma_lead_of_prefix(p, start, stop);
        lemma_names_after_separator(p, start);
        assert(q.skip(start) =~= p.subrange(start, stop));
        assert(start > 0 ==> q.take(start - 1) =~= p.take(start - 1));
        let front = p.take(start);
        assert(names(p).drop_last() =~= names(front));
        if names(front).len() > 0 {
            let (s, k) = lemma_last_name_range(front);
            assert(front.take(k) =~= p.take(k));
            assert(front.subrange(s, k) =~= p.subrange(s, k));
            lemma_lead_of_prefix(p, s, k);
            assert(parsed(p.take(k)) =~= v);
            assert forall|j: int| 0 <= j < k implies parsed(#[trigger] p.take(j)) != v by {
                lemma_shorter_differs(p, s, k, j);
            }
            k
        } else {
            lemma_lead_alone(p);
            let k = lead_len(lead(p));
            assert(parsed(p.take(k)) =~= v);
            if k > 0 {
                assert(lead(p.take(0)) == Lead::Nothing);
            }
            k
        }
    };
    assert(is_shortest(p, v, cut));
    let k = choose|k: int| is_shortest(p, v, k);
    lemma_shortest_unique(p, v, k, cut);
    cut
}

/// The parent of a path is a prefix of it that lacks its last name and nothing else, with nothing
/// behind its own last name: no shorter prefix reads the same. The parent of a path of no names is
/// empty if it is the current directory, and otherwise there is none.
pub proof fn law_parent_lacks_the_last_name(p: Seq<u8>, j: int)
    ensures
        spec_parent(p) is None <==> names(p).len() == 0 && lead(p) != Lead::CurDir,
        spec_parent(p) matches Some(dir) ==> {
            &&& dir.is_prefix_of(p)
            &&& names(p).len() > 0 ==> names(dir) == names(p).drop_last() && lead(dir) == lead(p)
            &&& names(p).len() == 0 ==> dir.len() == 0
            &&& names(p).len() > 0 && 0 <= j < dir.len() ==> names(p.take(j)) != names(dir) || lead(
                p.take(j),
            ) != lead(dir)
        },
{
    if has_parent(parsed(p)) {
        let k = lemma_parent(p);
        let v = without_last(parsed(p));
        assert(parsed(p.take(k)) == v);
        if names(p).len() == 0 {
            assert(p.take(0).skip(0) =~= Seq::empty());
            assert(parsed(p.take(0)) =~= v);
            if k > 0 {
                assert(parsed(p.take(0)) != v);
            }
        }
        if names(p).len() > 0 && 0 <= j < k {
            assert(parsed(p.take(j)) != v);
        }
    }
}

/// A path that ends in a joined name ends in that name.
pub(crate) proof fn lemma_piece_start_of_join(dir: Seq<u8>, name: Seq<u8>)
    requires
        dir.len() > 0,
        dir.last() != SEPARATOR,
        !name.contains(SEPARATOR),
        name.len() > 0,
    ensures
        spec_join(dir, name).skip(piece_start(spec_join(dir, name))) == name,
{
    let p = spec_join(dir, name);
    let at = dir.len() + 1;
    if name[0] == SEPARATOR {
        assert(name.contains(name[0]));
    }
    assert forall|i: int| at <= i < p.len() implies p[i] != SEPARATOR by {
        assert(name[i - at] == p[i]);
        assert(name.contains(p[i]));
    }
    lemma_piece_start_unique(p, at as int);
    assert(p.skip(at as int) =~= name);
}

/// The parent of a name in a directory is the directory, whatever the name is.
pub proof fn law_parent_of_joined(dir: Seq<u8>, name: Seq<u8>)
    requires
        dir.len() > 0,
        is_name(dir.skip(piece_start(dir))),
        !name.contains(47u8),
        name.len() > 0,
        name != seq![46u8],
    ensures
        spec_parent(spec_join(dir, name)) == Some(dir),
{
    let p = spec_join(dir, name);
    lemma_piece_start(dir);
    assert(dir.last() != SEPARATOR) by {
        assert(dir.skip(piece_start(dir)).len() > 0);
    }
    if name[0] == SEPARATOR {
        assert(name.contains(name[0]));
    }
    assert(p =~= dir + seq![47u8] + name);
    law_separators_part_names(dir, name);
    law_one_piece_one_name(name);
    assert(names(p) =~= names(dir).push(name));
    assert(names(p).drop_last() =~= names(dir));
    assert(p.take(dir.len() as int) =~= dir);
    let start = piece_start(dir);
    assert(p.subrange(start, dir.len() as int) =~= dir.skip(start));
    lemma_lead_of_prefix(p, start, dir.len() as int);
    let v = without_last(parsed(p));
    assert(parsed(dir) =~= v);
    assert forall|j: int| 0 <= j < dir.len() implies parsed(#[trigger] p.take(j)) != v by {
        lemma_shorter_differs(p, start, dir.len() as int, j);
    }
    assert(is_shortest(p, v, dir.len() as int));
    let k = lemma_parent(p);
    lemma_shortest_unique(p, v, k, dir.len() as int);
}

/// The extension of a path is what stands behind the last `.` of its last name, with something
/// before that `.`. A path has none if it has no name, if its last name is `..`, or if no `.` stands
/// in its last name but at the start.
pub proof fn law_extension_follows_the_last_dot(p: Seq<u8>)
    ensures
        match spec_extension(p) {
            Some(ext) => {
                &&& names(p).len() > 0
                &&& names(p).last() != seq![46u8, 46u8]
                &&& !ext.contains(46u8)
                &&& names(p).last().len() > ext.len() + 1
                &&& (seq![46u8] + ext).is_suffix_of(names(p).last())
            },
            None => names(p).len() == 0 || names(p).last() == seq![46u8, 46u8] || forall|i: int|
                0 < i < names(p).last().len() ==> names(p).last()[i] != 46u8,
        },
{
    if let Some(name) = spec_file_name(p) {
        if exists|d: int| 0 < d && is_final_dot(name, d) {
            let d = choose|d: int| 0 < d && is_final_dot(name, d);
            lemma_extension(p, name, d);
            let ext = name.skip(d + 1);
            if ext.contains(46u8) {
                let i = choose|i: int| 0 <= i < ext.len() && ext[i] == 46u8;
                assert(name[d + 1 + i] == DOT);
            }
            let whole = seq![46u8] + ext;
            assert(name.subrange(name.len() - whole.len(), name.len() as int) =~= whole);
        } else if exists|i: int| 0 < i < name.len() && name[i] == 46u8 {
            let i = choose|i: int| 0 < i < name.len() && name[i] == 46u8;
            lemma_final_dot(name, i);
        }
    }
}

/// Where a `.` stands, there is a last one.
proof fn lemma_final_dot(name: Seq<u8>, i: int)
    requires
        0 < i < name.len(),
        name[i] == DOT,
    ensures
        exists|d: int| 0 < d && is_final_dot(name, d),
    decreases name.len() - i,
{
    if exists|k: int| i < k < name.len() && name[k] == DOT {
        let k = choose|k: int| i < k < name.len() && name[k] == DOT;
        lemma_final_dot(name, k);
    } else {
        assert(is_final_dot(name, i));
    }
}

/// A path without its extension is what stands before the extension and its `.`, and what stood
/// behind them adds no name. A path that has no extension stays as it is.
pub proof fn law_only_the_extension_is_cut(p: Seq<u8>)
    ensures
        spec_extension(p) is None ==> spec_without_extension(p) == p,
        spec_extension(p) matches Some(ext) ==> {
            let q = spec_without_extension(p) + seq![46u8] + ext;
            &&& q.is_prefix_of(p)
            &&& names(q) == names(p)
            &&& lead(q) == lead(p)
            &&& names(p).last().is_suffix_of(q)
        },
{
    if let Some(ext) = spec_extension(p) {
        law_extension_follows_the_last_dot(p);
        let (start, stop) = lemma_last_name_range(p);
        lemma_trimmed(p, start, stop);
        lemma_lead_of_prefix(p, start, stop);
        let name = p.subrange(start, stop);
        let t = p.take(stop);
        let q = spec_without_extension(p) + seq![46u8] + ext;
        let tail = seq![46u8] + ext;
        assert(name.subrange(name.len() - tail.len(), name.len() as int) =~= tail);
        assert forall|i: int| 0 <= i < t.len() implies q[i] == t[i] by {
            let at = t.len() - tail.len();
            if i >= at {
                assert(tail[i - at] == name[name.len() - tail.len() + (i - at)]);
            }
        }
        assert(q =~= t);
        assert(t.subrange(t.len() - name.len(), t.len() as int) =~= name);
    }
}

/// Joining keeps both paths whole: an absolute path stands alone, and a relative one comes behind
/// the base, after a separator where the base is not empty and does not end in one.
pub proof fn law_join_keeps_both(base: Seq<u8>, tail: Seq<u8>)
    ensures
        ({
            let p = spec_join(base, tail);
            let absolute = tail.len() > 0 && tail[0] == 47u8;
            let parted = base.len() > 0 && base.last() != 47u8;
            &&& absolute ==> p == tail
            &&& !absolute ==> base.is_prefix_of(p) && tail.is_suffix_of(p)
            &&& !absolute && parted ==> p.len() == base.len() + 1 + tail.len() && p[base.len() as int]
                == 47u8
            &&& !absolute && !parted ==> p.len() == base.len() + tail.len()
        }),
{
    let p = spec_join(base, tail);
    if !(tail.len() > 0 && tail[0] == 47u8) {
        assert(p.subrange(p.len() - tail.len(), p.len() as int) =~= tail);
        assert(p.subrange(0, base.len() as int) =~= base);
    }
}

} // verus!
