//! The process's arguments and environment, as the kernel lays them out.
use vstd::prelude::*;
use vstd::utf8::{decode_utf8, valid_utf8};

verus! {

/// The byte `=`.
pub const EQUALS: u8 = 61;

/// The byte `NUL`.
pub const NUL: u8 = 0;

/// Whether `p` is the first `=` of `b` that is not its first byte.
pub open spec fn is_first_separator(b: Seq<u8>, p: int) -> bool {
    &&& 1 <= p < b.len()
    &&& b[p] == EQUALS
    &&& forall|q: int| 1 <= q < p ==> b[q] != EQUALS
}

/// A `NAME=value` entry split at its first `=` past the first byte (so that a
/// name may itself start with `=`). No such `=`, or an empty entry, gives
/// `None`.
pub open spec fn env_split(b: Seq<u8>) -> Option<(Seq<u8>, Seq<u8>)> {
    if exists|p: int| is_first_separator(b, p) {
        let p = choose|p: int| is_first_separator(b, p);
        Some((b.take(p), b.skip(p + 1)))
    } else {
        None
    }
}

/// The pieces of `b` between occurrences of `sep`; `n` separators give `n + 1`
/// pieces, so empty input gives one empty piece.
pub open spec fn split_on(b: Seq<u8>, sep: u8) -> Seq<Seq<u8>>
    decreases b.len(),
{
    if b.len() == 0 {
        seq![Seq::empty()]
    } else {
        let init = split_on(b.drop_last(), sep);
        if b.last() == sep {
            init.push(Seq::empty())
        } else {
            init.update(init.len() - 1, init.last().push(b.last()))
        }
    }
}

/// `b` without its final byte when that byte is `NUL`.
pub open spec fn strip_nul(b: Seq<u8>) -> Seq<u8> {
    if b.len() > 0 && b.last() == NUL {
        b.drop_last()
    } else {
        b
    }
}

/// The arguments held in the contents of `/proc/self/cmdline`.
pub open spec fn cmdline_args(b: Seq<u8>) -> Seq<Seq<u8>> {
    split_on(strip_nul(b), NUL)
}

/// The `NAME=value` pairs among `pieces`, in order; pieces that are no such
/// entry are left out.
pub open spec fn env_entries(pieces: Seq<Seq<u8>>) -> Seq<(Seq<u8>, Seq<u8>)>
    decreases pieces.len(),
{
    if pieces.len() == 0 {
        Seq::empty()
    } else {
        let init = env_entries(pieces.drop_last());
        match env_split(pieces.last()) {
            Some(kv) => init.push(kv),
            None => init,
        }
    }
}

/// The variables held in the contents of `/proc/self/environ`.
pub open spec fn environ_vars(b: Seq<u8>) -> Seq<(Seq<u8>, Seq<u8>)> {
    env_entries(split_on(strip_nul(b), NUL))
}

/// The byte strings held in a vector of byte vectors.
pub open spec fn views(v: Seq<Vec<u8>>) -> Seq<Seq<u8>> {
    v.map_values(|x: Vec<u8>| x@)
}

/// The pairs of byte strings held in a vector of pairs of byte vectors.
pub open spec fn pair_views(v: Seq<(Vec<u8>, Vec<u8>)>) -> Seq<(Seq<u8>, Seq<u8>)> {
    v.map_values(|x: (Vec<u8>, Vec<u8>)| (x.0@, x.1@))
}

/// Relies on `String::from_utf8`: the text when the bytes are UTF-8, else an
/// error.
#[verifier::external_body]
fn utf8_string(b: Vec<u8>) -> (r: Option<String>)
    ensures
        r is Some <==> valid_utf8(b@),
        r is Some ==> r->0@ == decode_utf8(b@),
{
    String::from_utf8(b).ok()
}

fn copy_range(s: &[u8], lo: usize, hi: usize) -> (r: Vec<u8>)
    requires
        lo <= hi <= s@.len(),
    ensures
        r@ == s@.subrange(lo as int, hi as int),
{
    let mut r: Vec<u8> = Vec::new();
    let mut i: usize = lo;
    while i < hi
        invariant
            lo <= i <= hi <= s@.len(),
            r@ == s@.subrange(lo as int, i as int),
        decreases hi - i,
    {
        r.push(s[i]);
        i = i + 1;
        assert(r@ =~= s@.subrange(lo as int, i as int));
    }
    r
}

/// Splits one `NAME=value` entry at its first `=` past the first byte.
pub fn parse_env(input: &[u8]) -> (r: Option<(Vec<u8>, Vec<u8>)>)
    ensures
        r is None <==> env_split(input@) is None,
        r is Some ==> env_split(input@) == Some(((r->0).0@, (r->0).1@)),
{
    if input.len() == 0 {
        assert(!exists|p: int| is_first_separator(input@, p));
        return None;
    }
    let mut i: usize = 1;
    while i < input.len()
        invariant
            1 <= i <= input@.len(),
            forall|q: int| 1 <= q < i ==> input@[q] != EQUALS,
        decreases input@.len() - i,
    {
        if input[i] == EQUALS {
            let p = i;
            assert(is_first_separator(input@, p as int));
            assert forall|other: int| is_first_separator(input@, other) implies other == p as int by {
                if other < p as int {
                } else if other > p as int {
                    assert(input@[p as int] != EQUALS);
                }
            }
            let name = copy_range(input, 0, p);
            let value = copy_range(input, p + 1, input.len());
            assert(name@ =~= input@.take(p as int));
            assert(value@ =~= input@.skip(p as int + 1));
            return Some((name, value));
        }
        i = i + 1;
    }
    assert(!exists|p: int| is_first_separator(input@, p));
    None
}

/// Splits the first `end` bytes of `data` into the pieces between
/// occurrences of `sep`.
pub(crate) fn split_bytes(data: &[u8], end: usize, sep: u8) -> (r: Vec<Vec<u8>>)
    requires
        end <= data@.len(),
    ensures
        views(r@) == split_on(data@.take(end as int), sep),
        r@.len() >= 1,
{
    let ghost body = data@.take(end as int);
    let mut pieces: Vec<Vec<u8>> = Vec::new();
    let mut cur: Vec<u8> = Vec::new();
    let mut i: usize = 0;
    assert(views(pieces@).push(cur@) =~= split_on(body.take(0), sep));
    while i < end
        invariant
            end <= data@.len(),
            body == data@.take(end as int),
            0 <= i <= end,
            views(pieces@).push(cur@) == split_on(body.take(i as int), sep),
        decreases end - i,
    {
        let b = data[i];
        let ghost before = body.take(i as int);
        assert(body.take(i as int + 1).drop_last() =~= before);
        assert(body.take(i as int + 1).last() == b);
        if b == sep {
            let done = cur;
            pieces.push(done);
            cur = Vec::new();
            assert(views(pieces@).push(cur@) =~= split_on(before, sep).push(Seq::empty()));
        } else {
            cur.push(b);
            let ghost init = split_on(before, sep);
            assert(views(pieces@).push(cur@) =~= init.update(init.len() - 1, init.last().push(b)));
        }
        i = i + 1;
    }
    assert(body.take(end as int) =~= body);
    pieces.push(cur);
    assert(views(pieces@) =~= split_on(body, sep));
    pieces
}

/// Splits `data` into the pieces between `NUL` bytes, after dropping one
/// final `NUL`.
fn split_nul(data: &[u8]) -> (r: Vec<Vec<u8>>)
    ensures
        views(r@) == split_on(strip_nul(data@), NUL),
{
    let mut end = data.len();
    if end > 0 && data[end - 1] == NUL {
        end = end - 1;
    }
    assert(strip_nul(data@) =~= data@.take(end as int));
    split_bytes(data, end, NUL)
}

/// The arguments held in the contents of `/proc/self/cmdline`: the pieces
/// between `NUL` bytes, a final `NUL` dropped first.
pub fn argv_from_cmdline(data: &[u8]) -> (r: Vec<Vec<u8>>)
    ensures
        views(r@) == cmdline_args(data@),
{
    split_nul(data)
}

/// The variables held in the contents of `/proc/self/environ`: each piece
/// between `NUL` bytes that is a `NAME=value` entry, split at its `=`.
pub fn envp_from_environ(data: &[u8]) -> (r: Vec<(Vec<u8>, Vec<u8>)>)
    ensures
        pair_views(r@) == environ_vars(data@),
{
    let pieces = split_nul(data);
    let mut out: Vec<(Vec<u8>, Vec<u8>)> = Vec::new();
    let mut i: usize = 0;
    while i < pieces.len()
        invariant
            0 <= i <= pieces@.len(),
            views(pieces@) == split_on(strip_nul(data@), NUL),
            pair_views(out@) == env_entries(views(pieces@).take(i as int)),
        decreases pieces@.len() - i,
    {
        let ghost seen = views(pieces@).take(i as int + 1);
        assert(seen.drop_last() =~= views(pieces@).take(i as int));
        assert(seen.last() == pieces@[i as int]@);
        match parse_env(pieces[i].as_slice()) {
            Some(kv) => {
                out.push(kv);
                assert(pair_views(out@) =~= env_entries(seen));
            },
            None => {
                assert(pair_views(out@) =~= env_entries(seen));
            },
        }
        i = i + 1;
    }
    assert(views(pieces@).take(pieces@.len() as int) =~= views(pieces@));
    out
}

/// The arguments as text. `None` stays `None`: the arguments could not be
/// had.
pub fn args(raw: Option<Vec<Vec<u8>>>) -> (r: Option<Vec<String>>)
    requires
        raw is Some ==> forall|i: int| 0 <= i < raw->0@.len() ==> valid_utf8(#[trigger] raw->0@[i]@),
    ensures
        r is Some <==> raw is Some,
        r is Some ==> r->0@.len() == raw->0@.len() && forall|i: int|
            0 <= i < r->0@.len() ==> #[trigger] r->0@[i]@ == decode_utf8(raw->0@[i]@),
{
    match raw {
        None => None,
        Some(items) => {
            let mut out: Vec<String> = Vec::new();
            let mut i: usize = 0;
            while i < items.len()
                invariant
                    0 <= i <= items@.len(),
                    forall|j: int| 0 <= j < items@.len() ==> valid_utf8(#[trigger] items@[j]@),
                    out@.len() == i,
                    forall|j: int| 0 <= j < i ==> #[trigger] out@[j]@ == decode_utf8(items@[j]@),
                decreases items@.len() - i,
            {
                let s = utf8_string(items[i].clone());
                match s {
                    Some(s) => out.push(s),
                    None => {
                        assert(false);
                    },
                }
                i = i + 1;
            }
            Some(out)
        },
    }
}

/// The variables as text. `None` stays `None`: the environment could not be
/// had.
pub fn vars(raw: Option<Vec<(Vec<u8>, Vec<u8>)>>) -> (r: Option<Vec<(String, String)>>)
    requires
        raw is Some ==> forall|i: int|
            0 <= i < raw->0@.len() ==> valid_utf8(#[trigger] raw->0@[i].0@) && valid_utf8(
                raw->0@[i].1@,
            ),
    ensures
        r is Some <==> raw is Some,
        r is Some ==> r->0@.len() == raw->0@.len() && forall|i: int|
            0 <= i < r->0@.len() ==> #[trigger] r->0@[i].0@ == decode_utf8(raw->0@[i].0@)
                && r->0@[i].1@ == decode_utf8(raw->0@[i].1@),
{
    match raw {
        None => None,
        Some(items) => {
            let mut out: Vec<(String, String)> = Vec::new();
            let mut i: usize = 0;
            while i < items.len()
                invariant
                    0 <= i <= items@.len(),
                    forall|j: int|
                        0 <= j < items@.len() ==> valid_utf8(#[trigger] items@[j].0@) && valid_utf8(
                            items@[j].1@,
                        ),
                    out@.len() == i,
                    forall|j: int|
                        0 <= j < i ==> #[trigger] out@[j].0@ == decode_utf8(items@[j].0@)
                            && out@[j].1@ == decode_utf8(items@[j].1@),
                decreases items@.len() - i,
            {
                let k = utf8_string(items[i].0.clone());
                let v = utf8_string(items[i].1.clone());
                match (k, v) {
                    (Some(k), Some(v)) => out.push((k, v)),
                    _ => {
                        assert(false);
                    },
                }
                i = i + 1;
            }
            Some(out)
        },
    }
}

} // verus!
