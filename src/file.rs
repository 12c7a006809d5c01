//! Paths of open file descriptors.
use vstd::prelude::*;
use crate::ext::push_char;

verus! {

/// The directory that holds an entry for each open file descriptor.
pub open spec fn fd_dir_path() -> Seq<char> {
    "/proc/self/fd"@
}

/// The character of a decimal digit.
pub open spec fn digit_char(d: int) -> char {
    (d + 48) as char
}

/// The decimal digits of a natural number, most significant first, with no
/// leading zero.
pub open spec fn decimal_digits(n: nat) -> Seq<char>
    decreases n,
{
    if n < 10 {
        seq![digit_char(n as int)]
    } else {
        decimal_digits(n / 10).push(digit_char((n % 10) as int))
    }
}

/// An integer written in decimal, with a leading `-` when negative.
pub open spec fn decimal(n: int) -> Seq<char> {
    if n < 0 {
        seq!['-'] + decimal_digits((-n) as nat)
    } else {
        decimal_digits(n as nat)
    }
}

fn push_digits(s: &mut String, n: u64)
    ensures
        final(s)@ == old(s)@ + decimal_digits(n as nat),
    decreases n,
{
    if n >= 10 {
        push_digits(s, n / 10);
    }
    let d = (n % 10) as u8;
    push_char(s, (d + 48) as char);
    assert(final(s)@ =~= old(s)@ + decimal_digits(n as nat));
}

/// The path of the directory that holds an entry for each open file
/// descriptor.
pub fn fd_dir() -> (r: String)
    ensures
        r@ == fd_dir_path(),
{
    "/proc/self/fd".to_owned()
}

/// The path of the entry for the open file descriptor `fd`, which names the
/// same open file.
pub fn fd_path(fd: i32) -> (r: String)
    ensures
        r@ == fd_dir_path() + seq!['/'] + decimal(fd as int),
{
    let mut s = fd_dir();
    push_char(&mut s, '/');
    let ghost prefix = s@;
    if fd < 0 {
        push_char(&mut s, '-');
        let m: u64 = (-(fd as i64)) as u64;
        push_digits(&mut s, m);
        assert(s@ =~= prefix + decimal(fd as int));
    } else {
        push_digits(&mut s, fd as u64);
    }
    s
}

/// Whether entry `i` of a `(from, to)` table is still to move.
pub open spec fn pending(t: Seq<(i32, i32)>, i: int) -> bool {
    t[i].0 != t[i].1
}

/// Whether entry `i` can move now: it is still to move, and no entry's
/// descriptor sits on its target, so moving overwrites nothing still needed.
pub open spec fn movable(t: Seq<(i32, i32)>, i: int) -> bool {
    &&& 0 <= i < t.len()
    &&& pending(t, i)
    &&& forall|j: int| 0 <= j < t.len() ==> t[j].0 != t[i].1
}

/// The table after entry `i` moved to its target.
pub open spec fn moved(t: Seq<(i32, i32)>, i: int) -> Seq<(i32, i32)> {
    t.update(i, (t[i].1, t[i].1))
}

/// The table after the entries at `idxs` moved, in order.
pub open spec fn after_moves(t: Seq<(i32, i32)>, idxs: Seq<usize>) -> Seq<(i32, i32)>
    decreases idxs.len(),
{
    if idxs.len() == 0 {
        t
    } else {
        moved(after_moves(t, idxs.drop_last()), idxs.last() as int)
    }
}

/// The number of entries still to move.
pub open spec fn pending_count(t: Seq<(i32, i32)>) -> nat
    decreases t.len(),
{
    if t.len() == 0 {
        0
    } else {
        pending_count(t.drop_last()) + if t.last().0 != t.last().1 {
            1nat
        } else {
            0nat
        }
    }
}

proof fn lemma_move_lowers_count(t: Seq<(i32, i32)>, i: int)
    requires
        0 <= i < t.len(),
        pending(t, i),
    ensures
        pending_count(moved(t, i)) + 1 == pending_count(t),
    decreases t.len(),
{
    let m = moved(t, i);
    if i == t.len() - 1 {
        assert(m.drop_last() =~= t.drop_last());
    } else {
        assert(m.drop_last() =~= moved(t.drop_last(), i));
        lemma_move_lowers_count(t.drop_last(), i);
    }
}

/// The first entry of the table that can move now, if any.
pub fn next_move(t: &[(i32, i32)]) -> (r: Option<usize>)
    ensures
        r is Some ==> movable(t@, r->0 as int) && forall|k: int|
            0 <= k < r->0 ==> !movable(t@, k),
        r is None ==> forall|k: int| !movable(t@, k),
{
    let mut i: usize = 0;
    while i < t.len()
        invariant
            0 <= i <= t@.len(),
            forall|k: int| 0 <= k < i ==> !movable(t@, k),
        decreases t@.len() - i,
    {
        let (from, to) = t[i];
        if from != to {
            let mut j: usize = 0;
            let mut clear = true;
            while j < t.len()
                invariant
                    0 <= j <= t@.len(),
                    0 <= i < t@.len(),
                    to == t@[i as int].1,
                    clear == forall|k: int| 0 <= k < j ==> t@[k].0 != to,
                decreases t@.len() - j,
            {
                if t[j].0 == to {
                    clear = false;
                }
                j = j + 1;
            }
            if clear {
                return Some(i);
            }
        }
        i = i + 1;
    }
    None
}

/// Whether each move of `plan` was movable when its turn came.
pub open spec fn each_movable(t: Seq<(i32, i32)>, plan: Seq<usize>) -> bool {
    forall|k: int|
        0 <= k < plan.len() ==> movable(after_moves(t, plan.take(k)), #[trigger] plan[k] as int)
}

proof fn lemma_plan_extends(t: Seq<(i32, i32)>, plan: Seq<usize>, i: usize)
    requires
        each_movable(t, plan),
        movable(after_moves(t, plan), i as int),
    ensures
        each_movable(t, plan.push(i)),
        after_moves(t, plan.push(i)) == moved(after_moves(t, plan), i as int),
{
    let np = plan.push(i);
    assert(np.drop_last() =~= plan);
    assert forall|k: int| 0 <= k < np.len() implies movable(
        after_moves(t, np.take(k)),
        #[trigger] np[k] as int,
    ) by {
        if k < plan.len() {
            assert(np.take(k) =~= plan.take(k));
        } else {
            assert(np.take(k) =~= plan);
        }
    }
}

/// Plans the moves that bring each descriptor `from` to its `to`: the
/// indices of the entries in the order they move, each one movable when its
/// turn comes. `table` ends as the table after those moves; an entry still
/// to move then sits in a ring of moves that no order can untie.
pub fn plan_moves(table: &mut Vec<(i32, i32)>) -> (r: Vec<usize>)
    ensures
        final(table)@ == after_moves(old(table)@, r@),
        each_movable(old(table)@, r@),
        forall|k: int| !movable(final(table)@, k),
{
    let ghost start = table@;
    let mut plan: Vec<usize> = Vec::new();
    assert(each_movable(start, plan@));
    loop
        invariant
            start == old(table)@,
            table@ == after_moves(start, plan@),
            table@.len() == start.len(),
            each_movable(start, plan@),
        decreases pending_count(table@),
    {
        match next_move(table.as_slice()) {
            Some(i) => {
                let ghost before = table@;
                let ghost old_plan = plan@;
                let to = table[i].1;
                table.set(i, (to, to));
                plan.push(i);
                proof {
                    lemma_move_lowers_count(before, i as int);
                    lemma_plan_extends(start, old_plan, i);
                    assert(table@ =~= moved(before, i as int));
                }
            },
            None => {
                return plan;
            },
        }
    }
}

/// Where a copy of `len` bytes stands after one transfer call moved `sent`
/// bytes from `offset` on: the new offset, or `None` when the call moved
/// nothing, which means the source ended early.
pub fn transfer_step(len: u64, offset: u64, sent: u64) -> (r: Option<u64>)
    requires
        offset <= len,
        sent <= len - offset,
    ensures
        r is None <==> sent == 0,
        r is Some ==> r->0 == offset + sent && r->0 <= len,
{
    if sent == 0 {
        None
    } else {
        Some(offset + sent)
    }
}

} // verus!
