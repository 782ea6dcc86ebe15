//! The users in the order of their ids, ten to a page.

use vstd::prelude::*;
use vstd::string::*;

use crate::error::ApiError;
use crate::graph::AccessGraph;
use crate::guards::auth::{Auth, OperatorUser};
use crate::models::User;

verus! {

/// How many users a page holds.
pub const PAGE_SIZE: usize = 10;

/// What stands for a bound below every id.
pub open spec fn below_all() -> int {
    i32::MIN - 1
}

/// The row with the least id above `bound`, if there is one.
pub open spec fn least_above(rows: Seq<User>, bound: int) -> Option<User>
    decreases rows.len(),
{
    if rows.len() == 0 {
        None
    } else {
        let rest = least_above(rows.drop_last(), bound);
        let last = rows.last();
        if last.id > bound && (rest is None || last.id < rest->Some_0.id) {
            Some(last)
        } else {
            rest
        }
    }
}

/// The row at the position `k`, counted from zero, when the rows are put in
/// the order of their ids.
pub open spec fn in_id_order(rows: Seq<User>, k: nat) -> Option<User>
    decreases k,
{
    if k == 0 {
        least_above(rows, below_all())
    } else {
        match in_id_order(rows, (k - 1) as nat) {
            Some(before) => least_above(rows, before.id as int),
            None => None,
        }
    }
}

/// Up to `count` rows in the order of their ids, beginning at the position
/// `from`.
pub open spec fn page_from(rows: Seq<User>, from: nat, count: nat) -> Seq<User>
    decreases count,
{
    if count == 0 {
        Seq::empty()
    } else {
        match in_id_order(rows, from) {
            None => Seq::empty(),
            Some(row) => seq![row] + page_from(rows, from + 1, (count - 1) as nat),
        }
    }
}

/// The page number `page` of the users, where no number means the first
/// page; a negative number has no page.
pub open spec fn spec_list(rows: Seq<User>, page: Option<i64>) -> Option<Seq<User>> {
    match page {
        None => Some(page_from(rows, 0, PAGE_SIZE as nat)),
        Some(number) => if number < 0 {
            None
        } else {
            Some(page_from(rows, (PAGE_SIZE * number) as nat, PAGE_SIZE as nat))
        },
    }
}

/// What `least_above` finds is a row above the bound that no row above the
/// bound is below; it finds nothing only where no row is above the bound.
pub proof fn lemma_least_above(rows: Seq<User>, bound: int)
    ensures
        match least_above(rows, bound) {
            Some(found) => rows.contains(found) && found.id > bound && forall|i: int|
                0 <= i < rows.len() && (#[trigger] rows[i]).id > bound ==> found.id <= rows[i].id,
            None => forall|i: int| 0 <= i < rows.len() ==> (#[trigger] rows[i]).id <= bound,
        },
    decreases rows.len(),
{
    if rows.len() > 0 {
        let head = rows.drop_last();
        lemma_least_above(head, bound);
        assert forall|i: int| 0 <= i < head.len() implies head[i] == rows[i] by {}
        match least_above(rows, bound) {
            Some(found) => {
                if least_above(head, bound) == Some(found) {
                    let k = choose|k: int| 0 <= k < head.len() && head[k] == found;
                    assert(rows[k] == found);
                } else {
                    assert(rows[rows.len() - 1] == found);
                }
                assert forall|i: int|
                    0 <= i < rows.len() && (#[trigger] rows[i]).id > bound implies found.id
                    <= rows[i].id by {
                    if i < head.len() {
                        assert(head[i].id > bound);
                    }
                }
            },
            None => {
                assert forall|i: int| 0 <= i < rows.len() implies (#[trigger] rows[i]).id
                    <= bound by {
                    if i < head.len() {
                        assert(head[i].id <= bound);
                    }
                }
            },
        }
    }
}

/// The rows come in the order of their ids: each position holds a row of
/// the table, and its id is above the id at the position before.
pub proof fn lemma_in_id_order_ascends(rows: Seq<User>, k: nat)
    ensures
        in_id_order(rows, k) matches Some(row) ==> rows.contains(row),
        k > 0 && in_id_order(rows, k) is Some ==> in_id_order(rows, (k - 1) as nat) is Some
            && in_id_order(rows, (k - 1) as nat)->Some_0.id < in_id_order(rows, k)->Some_0.id,
{
    if k == 0 {
        lemma_least_above(rows, below_all());
    } else {
        match in_id_order(rows, (k - 1) as nat) {
            Some(before) => {
                lemma_least_above(rows, before.id as int);
            },
            None => {},
        }
    }
}

/// Once the rows have run out they stay run out.
pub proof fn lemma_in_id_order_ends(rows: Seq<User>, k: nat, later: nat)
    requires
        in_id_order(rows, k) is None,
        k <= later,
    ensures
        in_id_order(rows, later) is None,
    decreases later,
{
    if later > k {
        lemma_in_id_order_ends(rows, k, (later - 1) as nat);
    }
}

/// The row with the least id above `bound`, where no bound stands for one
/// below every id.
fn next_above(rows: &Vec<User>, bound: Option<i32>) -> (r: Option<User>)
    ensures
        r == least_above(
            rows@,
            match bound {
                Some(b) => b as int,
                None => below_all(),
            },
        ),
{
    let ghost limit: int = match bound {
        Some(b) => b as int,
        None => below_all(),
    };
    let mut best: Option<usize> = None;
    let mut i: usize = 0;
    while i < rows.len()
        invariant
            i <= rows.len(),
            limit == (match bound {
                Some(b) => b as int,
                None => below_all(),
            }),
            match best {
                Some(j) => j < i && least_above(rows@.take(i as int), limit) == Some(rows@[j as int]),
                None => least_above(rows@.take(i as int), limit) is None,
            },
        decreases rows.len() - i,
    {
        proof {
            let next = rows@.take(i as int + 1);
            assert(next.drop_last() =~= rows@.take(i as int));
            assert(next.last() == rows@[i as int]);
        }
        let above = match bound {
            Some(b) => rows[i].id > b,
            None => true,
        };
        let better = match best {
            Some(j) => rows[i].id < rows[j].id,
            None => true,
        };
        if above && better {
            best = Some(i);
        }
        i += 1;
    }
    proof {
        rows@.lemma_take_len();
    }
    match best {
        Some(j) => Some(rows[j].clone()),
        None => None,
    }
}

/// `GET /users?<page>`: ten users in the order of their ids, beginning at
/// ten times the page number. A negative page number cannot be asked of
/// the store.
pub fn list(_auth: &Auth<OperatorUser>, page: Option<i64>, db: &AccessGraph) -> (r: Result<
    Vec<User>,
    ApiError,
>)
    ensures
        match spec_list(db@.users, page) {
            Some(rows) => r matches Ok(users) && users@ == rows,
            None => {
                &&& r matches Err(ApiError::Internal(m))
                &&& m@ == "The offset of a page cannot be negative."@
            },
        },
{
    let number: i64 = match page {
        Some(number) => number,
        None => 0,
    };
    if number < 0 {
        return Err(ApiError::Internal(String::from_str("The offset of a page cannot be negative.")));
    }
    let offset: u128 = (PAGE_SIZE as u128) * (number as u128);
    let rows = db.all_users();
    let mut cursor = next_above(&rows, None);
    let mut k: u128 = 0;
    while k < offset && cursor.is_some()
        invariant
            k <= offset,
            rows@ == db@.users,
            cursor == in_id_order(rows@, k as nat),
        decreases offset - k,
    {
        let here = cursor.unwrap();
        cursor = next_above(&rows, Some(here.id));
        k += 1;
    }
    proof {
        if k < offset {
            lemma_in_id_order_ends(rows@, k as nat, offset as nat);
        }
    }
    let mut out: Vec<User> = Vec::new();
    let mut j: usize = 0;
    while j < PAGE_SIZE && cursor.is_some()
        invariant
            j <= PAGE_SIZE,
            offset + PAGE_SIZE <= u128::MAX,
            rows@ == db@.users,
            cursor is Some ==> cursor == in_id_order(rows@, (offset + j) as nat),
            cursor is None ==> in_id_order(rows@, (offset + j) as nat) is None,
            out@ + page_from(rows@, (offset + j) as nat, (PAGE_SIZE - j) as nat) == page_from(
                rows@,
                offset as nat,
                PAGE_SIZE as nat,
            ),
        decreases PAGE_SIZE - j,
    {
        let here = cursor.unwrap();
        let ghost before = out@;
        let ghost rest = page_from(rows@, (offset + j + 1) as nat, (PAGE_SIZE - j - 1) as nat);
        cursor = next_above(&rows, Some(here.id));
        proof {
            assert(page_from(rows@, (offset + j) as nat, (PAGE_SIZE - j) as nat) == seq![here]
                + rest);
            assert(before.push(here) + rest =~= before + (seq![here] + rest));
        }
        out.push(here);
        j += 1;
    }
    proof {
        assert(page_from(rows@, (offset + j) as nat, (PAGE_SIZE - j) as nat) =~= Seq::<
            User,
        >::empty());
        assert(out@ + Seq::<User>::empty() =~= out@);
    }
    Ok(out)
}

} // verus!
