//! A window on a list of names, whole or cut into pieces of equal size.

use vstd::prelude::*;

verus! {

/// Where the window ends: `limit` names after `offset`, but not beyond the list.
pub open spec fn window_end(offset: usize, limit: Option<usize>, len: nat) -> int {
    match limit {
        Some(count) => if offset + count > len {
            len as int
        } else {
            offset + count
        },
        None => len as int,
    }
}

/// The window is defined: it begins within the list, the sum of offset and limit
/// is a machine number, and pieces have a size.
pub open spec fn pageable(offset: usize, limit: Option<usize>, split: Option<usize>, len: nat) -> bool {
    &&& offset <= len
    &&& limit matches Some(count) ==> offset + count <= usize::MAX
    &&& split != Some(0usize)
}

/// The names from `offset` up to the end of the window.
pub open spec fn window(names: Seq<String>, offset: usize, limit: Option<usize>) -> Seq<String> {
    names.subrange(offset as int, window_end(offset, limit, names.len()))
}

/// Into how many pieces of `size` names a list of `len` names is cut, the last
/// piece holding what is left.
pub open spec fn piece_count(len: nat, size: usize) -> int {
    (len + size - 1) / (size as int)
}

/// The `k`-th piece of `size` names.
pub open spec fn piece(names: Seq<String>, size: usize, k: int) -> Seq<String> {
    names.subrange(
        k * size,
        if (k + 1) * size > names.len() {
            names.len() as int
        } else {
            (k + 1) * size
        },
    )
}

/// The pieces are those of the list, in order.
pub open spec fn is_cut_of(pieces: Seq<Vec<String>>, names: Seq<String>, size: usize) -> bool {
    &&& pieces.len() == piece_count(names.len(), size)
    &&& forall|k: int| 0 <= k < pieces.len() ==> (#[trigger] pieces[k])@ == piece(names, size, k)
}

/// A window, whole or in pieces.
#[derive(Debug)]
pub enum Pages {
    Whole(Vec<String>),
    Pieces(Vec<Vec<String>>),
}

/// Copies the names from `from` up to `to`.
pub fn copy_range(names: &Vec<String>, from: usize, to: usize) -> (copy: Vec<String>)
    requires
        from <= to <= names.len(),
    ensures
        copy@ == names@.subrange(from as int, to as int),
{
    let mut copy: Vec<String> = Vec::new();
    let mut i = from;
    while i < to
        invariant
            from <= i <= to <= names.len(),
            copy@ == names@.subrange(from as int, i as int),
        decreases to - i,
    {
        copy.push(names[i].clone());
        assert(copy@ =~= names@.subrange(from as int, i + 1));
        i += 1;
    }
    copy
}

/// Cuts a list into pieces of `size` names.
pub fn cut(names: &Vec<String>, size: usize) -> (pieces: Vec<Vec<String>>)
    requires
        size > 0,
    ensures
        is_cut_of(pieces@, names@, size),
{
    let n = names.len();
    let mut pieces: Vec<Vec<String>> = Vec::new();
    let mut from: usize = 0;
    proof {
        lemma_piece_count_zero(size);
        assert(pieces.len() * size == 0) by (nonlinear_arith)
            requires
                pieces.len() == 0,
        ;
    }
    while from < n
        invariant
            n == names.len(),
            size > 0,
            from <= n,
            from < n ==> from == pieces.len() * size,
            from >= n ==> pieces.len() == piece_count(n as nat, size),
            forall|k: int| 0 <= k < pieces.len() ==> (#[trigger] pieces@[k])@ == piece(names@, size, k),
        decreases n - from,
    {
        let to = if size > n - from {
            n
        } else {
            from + size
        };
        let ghost k = pieces.len() as int;
        assert((k + 1) * size == from + size) by (nonlinear_arith)
            requires
                from == k * size,
        ;
        let part = copy_range(names, from, to);
        assert(part@ == piece(names@, size, k));
        proof {
            lemma_piece_count(n as nat, size, k);
        }
        pieces.push(part);
        from = to;
    }
    pieces
}

/// An empty list is cut into no pieces.
proof fn lemma_piece_count_zero(size: usize)
    requires
        size > 0,
    ensures
        piece_count(0, size) == 0,
{
    let s = size as int;
    assert((s - 1) / s == 0) by (nonlinear_arith)
        requires
            s > 0,
    ;
}

/// With `k` whole pieces taken and names left, there is a further piece; it is
/// the last exactly when it reaches the end of the list.
proof fn lemma_piece_count(len: nat, size: usize, k: int)
    requires
        size > 0,
        0 <= k,
        k * size < len,
    ensures
        k < piece_count(len, size),
        (k + 1) * size >= len ==> piece_count(len, size) == k + 1,
{
    let s = size as int;
    let total = len + s - 1;
    assert(total == s * (total / s) + total % s) by (nonlinear_arith)
        requires
            s > 0,
    ;
    assert(0 <= total % s < s);
    let q = total / s;
    assert(k < q) by (nonlinear_arith)
        requires
            k * s < len,
            total == s * q + total % s,
            0 <= total % s < s,
            total == len + s - 1,
            s > 0,
    ;
    if (k + 1) * s >= len {
        assert(q <= k + 1) by (nonlinear_arith)
            requires
                (k + 1) * s >= len,
                total == s * q + total % s,
                0 <= total % s < s,
                total == len + s - 1,
                s > 0,
        ;
    }
}

/// Takes the window on the names that begins at `offset` and holds at most
/// `limit` names, and cuts it into pieces of `split` names where a size is given.
/// There is no answer where the window is not defined.
pub fn sub_slice_names(
    offset: usize,
    limit: Option<usize>,
    split: Option<usize>,
    names: &Vec<String>,
) -> (pages: Option<Pages>)
    ensures
        pages is Some <==> pageable(offset, limit, split, names@.len()),
        match pages {
            Some(Pages::Whole(list)) => split is None && list@ == window(names@, offset, limit),
            Some(Pages::Pieces(pieces)) => split matches Some(size) && is_cut_of(
                pieces@,
                window(names@, offset, limit),
                size,
            ),
            None => true,
        },
{
    let n = names.len();
    let end = match limit {
        Some(count) => match offset.checked_add(count) {
            Some(end) => if end > n {
                n
            } else {
                end
            },
            None => {
                return None;
            },
        },
        None => n,
    };
    if offset > end {
        return None;
    }
    let list = copy_range(names, offset, end);
    match split {
        Some(size) => if size == 0 {
            None
        } else {
            Some(Pages::Pieces(cut(&list, size)))
        },
        None => Some(Pages::Whole(list)),
    }
}

} // verus!
