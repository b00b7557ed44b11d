//! Status index: for each lifecycle state, the ids of the contracts that
//! currently carry it, in the order they entered it; plus pagination.

use vstd::prelude::*;

use crate::escrow::Escrow;
use crate::types::{AccountId, Contract, ContractEntry, ContractStatus};

verus! {

/// Maximum ids returned by a single paginated query.
pub const MAX_PAGE_LIMIT: u32 = 50;

/// Number of status buckets (one per [`ContractStatus`] variant).
pub const STATUS_BUCKETS: usize = 8;

/// Stable numeric code of a status.
pub open spec fn spec_status_code(status: ContractStatus) -> u32 {
    match status {
        ContractStatus::Created => 0,
        ContractStatus::Accepted => 1,
        ContractStatus::Funded => 2,
        ContractStatus::Completed => 3,
        ContractStatus::Disputed => 4,
        ContractStatus::Cancelled => 5,
        ContractStatus::Refunded => 6,
        ContractStatus::PartiallyFunded => 7,
    }
}

/// Converts a status to its stable code.
pub fn status_code(status: &ContractStatus) -> (c: u32)
    ensures
        c == spec_status_code(*status),
        c < STATUS_BUCKETS,
{
    match status {
        ContractStatus::Created => 0,
        ContractStatus::Accepted => 1,
        ContractStatus::Funded => 2,
        ContractStatus::Completed => 3,
        ContractStatus::Disputed => 4,
        ContractStatus::Cancelled => 5,
        ContractStatus::Refunded => 6,
        ContractStatus::PartiallyFunded => 7,
    }
}

/// Two distinct statuses have distinct codes.
pub proof fn lemma_status_code_injective(a: ContractStatus, b: ContractStatus)
    ensures
        spec_status_code(a) == spec_status_code(b) <==> a == b,
{
}

pub open spec fn no_dups(s: Seq<u32>) -> bool {
    forall|i: int, j: int| 0 <= i < s.len() && 0 <= j < s.len() && i != j ==> s[i] != s[j]
}

/// The index `idx` lists, for each status, exactly the contracts (ids `1..=n`,
/// the status of id `k` being `statuses[k - 1]`) that currently carry it.
pub open spec fn index_consistent(idx: Seq<Seq<u32>>, statuses: Seq<ContractStatus>) -> bool {
    &&& idx.len() == STATUS_BUCKETS
    &&& forall|b: int| 0 <= b < STATUS_BUCKETS ==> no_dups(#[trigger] idx[b])
    &&& forall|b: int, j: int|
        0 <= b < STATUS_BUCKETS && 0 <= j < idx[b].len() ==> {
            let id = #[trigger] idx[b][j];
            &&& 1 <= id <= statuses.len()
            &&& spec_status_code(statuses[id - 1]) == b
        }
    &&& forall|k: int|
        0 <= k < statuses.len() ==> #[trigger] idx[spec_status_code(statuses[k]) as int].contains(
            (k + 1) as u32,
        )
}

/// The contents of each bucket.
pub open spec fn buckets(index: Seq<Vec<u32>>) -> Seq<Seq<u32>> {
    index.map_values(|v: Vec<u32>| v@)
}

/// Index of the first occurrence of `x` in `s` (meaningful when `s` contains `x`).
pub open spec fn first_index(s: Seq<u32>, x: u32) -> int {
    choose|i: int| 0 <= i < s.len() && s[i] == x && forall|j: int| 0 <= j < i ==> s[j] != x
}

/// `s` without its first occurrence of `x` (unchanged when absent).
pub open spec fn remove_first(s: Seq<u32>, x: u32) -> Seq<u32> {
    if s.contains(x) {
        s.remove(first_index(s, x))
    } else {
        s
    }
}

/// The index after contract `id` moves from bucket `from` to bucket `to`.
pub open spec fn moved(idx: Seq<Seq<u32>>, id: u32, from: u32, to: u32) -> Seq<Seq<u32>> {
    if from == to {
        idx
    } else {
        let removed = idx.update(from as int, remove_first(idx[from as int], id));
        removed.update(to as int, removed[to as int].push(id))
    }
}

/// Removes the first occurrence of `contract_id` from bucket `bucket`.
pub fn remove_from_index(index: &mut Vec<Vec<u32>>, bucket: usize, contract_id: u32)
    requires
        bucket < old(index)@.len(),
    ensures
        final(index)@.len() == old(index)@.len(),
        final(index)@[bucket as int]@ == remove_first(old(index)@[bucket as int]@, contract_id),
        forall|b: int|
            0 <= b < old(index)@.len() && b != bucket ==> #[trigger] final(index)@[b] == old(
                index,
            )@[b],
{
    let ghost s = index@[bucket as int]@;
    let n = index[bucket].len();
    let mut i: usize = 0;
    let mut found = false;
    while i < n && !found
        invariant
            bucket < index@.len(),
            n == s.len(),
            s == index@[bucket as int]@,
            i <= n,
            found ==> i < n && s[i as int] == contract_id,
            forall|j: int| 0 <= j < i ==> s[j] != contract_id,
        decreases n - i + (if found {
            0int
        } else {
            1int
        }),
    {
        if index[bucket][i] == contract_id {
            found = true;
        } else {
            i = i + 1;
        }
    }
    if found {
        proof {
            assert(s.contains(contract_id));
            let f = first_index(s, contract_id);
            assert(0 <= i < s.len() && s[i as int] == contract_id && forall|j: int|
                0 <= j < i ==> s[j] != contract_id);
            if f < i {
                assert(s[f] != contract_id);
            }
            if f > i {
                assert(s[i as int] != contract_id);
            }
            assert(f == i);
        }
        let r = &mut index[bucket];
        r.remove(i);
    } else {
        proof {
            assert(!s.contains(contract_id));
        }
    }
}

/// Appends `contract_id` to bucket `bucket`.
pub fn append_to_index(index: &mut Vec<Vec<u32>>, bucket: usize, contract_id: u32)
    requires
        bucket < old(index)@.len(),
    ensures
        final(index)@.len() == old(index)@.len(),
        final(index)@[bucket as int]@ == old(index)@[bucket as int]@.push(contract_id),
        forall|b: int|
            0 <= b < old(index)@.len() && b != bucket ==> #[trigger] final(index)@[b] == old(
                index,
            )@[b],
{
    index[bucket].push(contract_id);
}

/// Moves `contract_id` from the bucket of `old_status` to that of `new_status`.
pub fn update_status_index(
    index: &mut Vec<Vec<u32>>,
    contract_id: u32,
    old_status: &ContractStatus,
    new_status: &ContractStatus,
)
    requires
        old(index)@.len() == STATUS_BUCKETS,
    ensures
        final(index)@.len() == STATUS_BUCKETS,
        buckets(final(index)@) == moved(
            buckets(old(index)@),
            contract_id,
            spec_status_code(*old_status),
            spec_status_code(*new_status),
        ),
{
    if *old_status == *new_status {
        return;
    }
    let from = status_code(old_status);
    let to = status_code(new_status);
    let ghost before = buckets(index@);
    remove_from_index(index, from as usize, contract_id);
    let ghost mid = buckets(index@);
    append_to_index(index, to as usize, contract_id);
    proof {
        lemma_status_code_injective(*old_status, *new_status);
        let removed = before.update(from as int, remove_first(before[from as int], contract_id));
        assert(mid =~= removed);
        assert(buckets(index@) =~= removed.update(to as int, removed[to as int].push(contract_id)));
    }
}

/// Registers a newly created contract in the bucket of its initial status.
pub fn index_new_contract(index: &mut Vec<Vec<u32>>, contract_id: u32, initial_status: &ContractStatus)
    requires
        old(index)@.len() == STATUS_BUCKETS,
    ensures
        buckets(final(index)@) == buckets(old(index)@).update(
            spec_status_code(*initial_status) as int,
            buckets(old(index)@)[spec_status_code(*initial_status) as int].push(contract_id),
        ),
{
    let b = status_code(initial_status);
    let ghost before = buckets(index@);
    append_to_index(index, b as usize, contract_id);
    proof {
        assert(buckets(index@) =~= before.update(b as int, before[b as int].push(contract_id)));
    }
}

/// The page of `ids` starting at position `start` with at most
/// `min(limit, MAX_PAGE_LIMIT)` entries.
pub open spec fn page_of(ids: Seq<u32>, start: int, limit: int) -> Seq<u32> {
    let capped = if limit < MAX_PAGE_LIMIT {
        limit
    } else {
        MAX_PAGE_LIMIT as int
    };
    if start >= ids.len() || capped == 0 {
        Seq::empty()
    } else {
        let end = if start + capped < ids.len() {
            start + capped
        } else {
            ids.len() as int
        };
        ids.subrange(start, end)
    }
}

/// Returns the page of `ids` starting at `start` of at most
/// `min(limit, MAX_PAGE_LIMIT)` entries.
pub fn paginate(ids: &Vec<u32>, start: u32, limit: u32) -> (page: Vec<u32>)
    ensures
        page@ == page_of(ids@, start as int, limit as int),
{
    let capped = if limit < MAX_PAGE_LIMIT {
        limit
    } else {
        MAX_PAGE_LIMIT
    };
    let total = ids.len();
    if start as usize >= total || capped == 0 {
        return Vec::new();
    }
    let end: usize = if (capped as usize) < total - (start as usize) {
        start as usize + capped as usize
    } else {
        total
    };
    let mut page: Vec<u32> = Vec::new();
    let mut i: usize = start as usize;
    while i < end
        invariant
            start <= i <= end <= total,
            total == ids@.len(),
            page@ == ids@.subrange(start as int, i as int),
        decreases end - i,
    {
        page.push(ids[i]);
        proof {
            assert(ids@.subrange(start as int, i + 1) =~= ids@.subrange(start as int, i as int).push(
                ids@[i as int],
            ));
        }
        i = i + 1;
    }
    page
}

/// Facts about removing the first occurrence of a value from a duplicate-free sequence.
pub proof fn lemma_remove_first(s: Seq<u32>, x: u32)
    requires
        no_dups(s),
    ensures
        no_dups(remove_first(s, x)),
        forall|y: u32| #[trigger] remove_first(s, x).contains(y) <==> (s.contains(y) && y != x),
        forall|j: int|
            0 <= j < remove_first(s, x).len() ==> s.contains(#[trigger] remove_first(s, x)[j]),
{
    if s.contains(x) {
        let i = choose|i: int| 0 <= i < s.len() && s[i] == x;
        assert(0 <= i < s.len() && s[i] == x && forall|j: int| 0 <= j < i ==> s[j] != x);
        let f = first_index(s, x);
        assert(f == i);
        let r = s.remove(f);
        assert forall|y: u32| #[trigger] r.contains(y) <==> (s.contains(y) && y != x) by {
            if r.contains(y) {
                let k = choose|k: int| 0 <= k < r.len() && r[k] == y;
                if k < f {
                    assert(s[k] == y);
                } else {
                    assert(s[k + 1] == y);
                }
            }
            if s.contains(y) && y != x {
                let k = choose|k: int| 0 <= k < s.len() && s[k] == y;
                if k < f {
                    assert(r[k] == y);
                } else {
                    assert(k != f);
                    assert(r[k - 1] == y);
                }
            }
        }
        assert forall|j: int| 0 <= j < r.len() implies s.contains(#[trigger] r[j]) by {
            if j < f {
                assert(s[j] == r[j]);
            } else {
                assert(s[j + 1] == r[j]);
            }
        }
        assert forall|a: int, b: int| 0 <= a < r.len() && 0 <= b < r.len() && a != b implies r[a]
            != r[b] by {
            let sa = if a < f {
                a
            } else {
                a + 1
            };
            let sb = if b < f {
                b
            } else {
                b + 1
            };
            assert(s[sa] == r[a]);
            assert(s[sb] == r[b]);
        }
    } else {
        assert forall|j: int| 0 <= j < s.len() implies s.contains(#[trigger] s[j]) by {
            assert(s[j] == s[j]);
        }
    }
}

/// Moving a contract to its new status keeps the index consistent.
pub proof fn lemma_index_move(
    idx: Seq<Seq<u32>>,
    statuses: Seq<ContractStatus>,
    id: u32,
    new_status: ContractStatus,
)
    requires
        index_consistent(idx, statuses),
        1 <= id <= statuses.len(),
        statuses.len() <= u32::MAX,
    ensures
        index_consistent(
            moved(idx, id, spec_status_code(statuses[id - 1]), spec_status_code(new_status)),
            statuses.update(id - 1, new_status),
        ),
{
    let from = spec_status_code(statuses[id - 1]);
    let to = spec_status_code(new_status);
    let st2 = statuses.update(id - 1, new_status);
    if from == to {
        lemma_status_code_injective(statuses[id - 1], new_status);
        assert(st2 =~= statuses);
        return;
    }
    let src = idx[from as int];
    lemma_remove_first(src, id);
    let removed = idx.update(from as int, remove_first(src, id));
    let res = removed.update(to as int, removed[to as int].push(id));
    assert(res == moved(idx, id, from, to));
    // the destination bucket did not hold `id`
    assert(!idx[to as int].contains(id)) by {
        if idx[to as int].contains(id) {
            let j = choose|j: int| 0 <= j < idx[to as int].len() && idx[to as int][j] == id;
            assert(idx[to as int][j] == id);
        }
    }
    assert forall|b: int| 0 <= b < STATUS_BUCKETS implies no_dups(#[trigger] res[b]) by {
        if b == to {
            let t = idx[to as int];
            assert(res[b] == t.push(id));
            assert forall|x: int, y: int|
                0 <= x < res[b].len() && 0 <= y < res[b].len() && x != y implies res[b][x]
                != res[b][y] by {
                if x < t.len() && y < t.len() {
                    assert(res[b][x] == t[x]);
                    assert(res[b][y] == t[y]);
                } else if x < t.len() {
                    assert(res[b][x] == t[x]);
                    assert(t.contains(t[x]));
                } else if y < t.len() {
                    assert(res[b][y] == t[y]);
                    assert(t.contains(t[y]));
                }
            }
        } else if b == from {
            assert(res[b] == remove_first(src, id));
        } else {
            assert(res[b] == idx[b]);
        }
    }
    assert forall|b: int, j: int| 0 <= b < STATUS_BUCKETS && 0 <= j < res[b].len() implies {
        let e = #[trigger] res[b][j];
        &&& 1 <= e <= st2.len()
        &&& spec_status_code(st2[e - 1]) == b
    } by {
        let e = res[b][j];
        if b == to {
            if j == idx[to as int].len() {
                assert(e == id);
            } else {
                assert(e == idx[b][j]);
                assert(e != id);
            }
        } else if b == from {
            assert(remove_first(src, id).contains(e));
            let k = choose|k: int| 0 <= k < src.len() && src[k] == e;
            assert(idx[b][k] == e);
        } else {
            assert(e == idx[b][j]);
            if e == id {
                assert(spec_status_code(statuses[id - 1]) == b);
            }
        }
    }
    assert forall|k: int| 0 <= k < st2.len() implies #[trigger] res[spec_status_code(
        st2[k],
    ) as int].contains((k + 1) as u32) by {
        if k == id - 1 {
            assert(res[to as int][idx[to as int].len() as int] == id);
        } else {
            let b = spec_status_code(statuses[k]) as int;
            assert(idx[b].contains((k + 1) as u32));
            assert(st2[k] == statuses[k]);
            if b == to {
                let j = choose|j: int| 0 <= j < idx[b].len() && idx[b][j] == (k + 1) as u32;
                assert(res[b][j] == (k + 1) as u32);
            } else if b == from {
                assert((k + 1) as u32 != id);
                assert(src.contains((k + 1) as u32));
                assert(remove_first(src, id).contains((k + 1) as u32));
            } else {
                assert(res[b] == idx[b]);
            }
        }
    }
}

/// Registering a new contract (id `n + 1`) keeps the index consistent.
pub proof fn lemma_index_push(idx: Seq<Seq<u32>>, statuses: Seq<ContractStatus>, st: ContractStatus)
    requires
        index_consistent(idx, statuses),
        statuses.len() + 1 <= u32::MAX,
    ensures
        index_consistent(
            idx.update(
                spec_status_code(st) as int,
                idx[spec_status_code(st) as int].push((statuses.len() + 1) as u32),
            ),
            statuses.push(st),
        ),
{
    let c = spec_status_code(st) as int;
    let id = (statuses.len() + 1) as u32;
    let res = idx.update(c, idx[c].push(id));
    let st2 = statuses.push(st);
    assert forall|b: int| 0 <= b < STATUS_BUCKETS implies no_dups(#[trigger] res[b]) by {
        if b == c {
            let t = idx[c];
            assert forall|x: int, y: int|
                0 <= x < res[b].len() && 0 <= y < res[b].len() && x != y implies res[b][x]
                != res[b][y] by {
                if x < t.len() {
                    assert(res[b][x] == t[x]);
                }
                if y < t.len() {
                    assert(res[b][y] == t[y]);
                }
            }
        }
    }
    assert forall|b: int, j: int| 0 <= b < STATUS_BUCKETS && 0 <= j < res[b].len() implies {
        let e = #[trigger] res[b][j];
        &&& 1 <= e <= st2.len()
        &&& spec_status_code(st2[e - 1]) == b
    } by {
        if b == c && j == idx[c].len() {
        } else {
            assert(res[b][j] == idx[b][j]);
        }
    }
    assert forall|k: int| 0 <= k < st2.len() implies #[trigger] res[spec_status_code(
        st2[k],
    ) as int].contains((k + 1) as u32) by {
        if k == statuses.len() {
            assert(res[c][idx[c].len() as int] == id);
        } else {
            let b = spec_status_code(statuses[k]) as int;
            assert(idx[b].contains((k + 1) as u32));
            let j = choose|j: int| 0 <= j < idx[b].len() && idx[b][j] == (k + 1) as u32;
            assert(res[b][j] == (k + 1) as u32);
        }
    }
}

/// Whether the `(client, freelancer)` pair a contract was created with has
/// `p` as client (role 0) or freelancer (role 1).
pub open spec fn has_role(parties: (AccountId, AccountId), p: AccountId, role: u32) -> bool {
    (role == 0 && parties.0 == p) || (role == 1 && parties.1 == p)
}

/// Ids, in creation order, of the contracts whose creation parties `cs`
/// give `p` the role `role`.
pub open spec fn participant_ids(cs: Seq<(AccountId, AccountId)>, p: AccountId, role: u32) -> Seq<u32>
    decreases cs.len(),
{
    if cs.len() == 0 {
        Seq::empty()
    } else {
        let rest = participant_ids(cs.drop_last(), p, role);
        if has_role(cs.last(), p, role) {
            rest.push(cs.len() as u32)
        } else {
            rest
        }
    }
}

impl Escrow {
    /// A page of the ids of the contracts currently in `status`, in the order
    /// they entered it.
    pub fn list_by_status(&self, status: &ContractStatus, start: u32, limit: u32) -> (page: Vec<u32>)
        requires
            self.wf(),
        ensures
            page@ == page_of(
                buckets(self.status_index@)[spec_status_code(*status) as int],
                start as int,
                limit as int,
            ),
    {
        let b = status_code(status);
        paginate(&self.status_index[b as usize], start, limit)
    }

    /// A page of the ids of the contracts created with `participant` as
    /// client (`role` 0) or freelancer (`role` 1), in creation order. The
    /// index is append-only: a client hand-over does not move a contract.
    pub fn list_by_participant(&self, participant: AccountId, role: u32, start: u32, limit: u32) -> (page: Vec<u32>)
        requires
            self.wf(),
        ensures
            page@ == page_of(participant_ids(self.participants@, participant, role), start as int, limit as int),
    {
        let mut ids: Vec<u32> = Vec::new();
        let mut i: usize = 0;
        while i < self.participants.len()
            invariant
                self.participants@.len() == self.contracts@.len(),
                i <= self.participants@.len() < u32::MAX,
                ids@ == participant_ids(self.participants@.take(i as int), participant, role),
            decreases self.participants@.len() - i,
        {
            let (client, freelancer) = self.participants[i];
            proof {
                assert(self.participants@.take(i + 1).drop_last() =~= self.participants@.take(i as int));
            }
            if (role == 0 && client == participant) || (role == 1 && freelancer == participant) {
                ids.push((i + 1) as u32);
            }
            i = i + 1;
        }
        proof {
            assert(self.participants@.take(i as int) =~= self.participants@);
        }
        paginate(&ids, start, limit)
    }
}

/// The listing entry of contract `id`.
pub open spec fn entry_of(id: u32, c: Contract) -> ContractEntry {
    ContractEntry {
        id,
        client: c.client,
        freelancer: c.freelancer,
        status: c.status,
        funded_amount: c.funded_amount,
        released_amount: c.released_amount,
    }
}

/// Entries for contracts `start + 1 ..` of `cs`, at most `min(limit, MAX_PAGE_LIMIT)` of them.
pub open spec fn contracts_page(cs: Seq<Contract>, start: int, limit: int) -> Seq<ContractEntry> {
    let capped = if limit < MAX_PAGE_LIMIT {
        limit
    } else {
        MAX_PAGE_LIMIT as int
    };
    let n = if start >= cs.len() {
        0
    } else if start + capped < cs.len() {
        capped
    } else {
        cs.len() - start
    };
    Seq::new(n as nat, |k: int| entry_of((start + k + 1) as u32, cs[start + k]))
}

impl Escrow {
    /// A page of listing entries in creation order: contracts
    /// `start + 1 ..= start + min(limit, MAX_PAGE_LIMIT)` that exist.
    pub fn get_contracts_page(&self, start: u32, limit: u32) -> (page: Vec<ContractEntry>)
        requires
            self.wf(),
        ensures
            page@ == contracts_page(self.contracts@, start as int, limit as int),
    {
        let capped = if limit < MAX_PAGE_LIMIT {
            limit
        } else {
            MAX_PAGE_LIMIT
        };
        let total = self.contracts.len();
        let mut page: Vec<ContractEntry> = Vec::new();
        if start as usize >= total {
            proof {
                assert(page@ =~= contracts_page(self.contracts@, start as int, limit as int));
            }
            return page;
        }
        let end: usize = if (capped as usize) < total - (start as usize) {
            start as usize + capped as usize
        } else {
            total
        };
        let ghost cs = self.contracts@;
        let mut i: usize = start as usize;
        while i < end
            invariant
                cs == self.contracts@,
                start <= i <= end <= total,
                total == cs.len(),
                total < u32::MAX,
                page@ == Seq::new((i - start) as nat, |k: int| entry_of((start + k + 1) as u32, cs[start + k])),
            decreases end - i,
        {
            let c = self.contracts[i];
            page.push(
                ContractEntry {
                    id: (i + 1) as u32,
                    client: c.client,
                    freelancer: c.freelancer,
                    status: c.status,
                    funded_amount: c.funded_amount,
                    released_amount: c.released_amount,
                },
            );
            proof {
                assert(page@ =~= Seq::new((i + 1 - start) as nat, |k: int| entry_of((start + k + 1) as u32, cs[start + k])));
            }
            i = i + 1;
        }
        proof {
            assert(page@ =~= contracts_page(self.contracts@, start as int, limit as int));
        }
        page
    }

    /// Whether contract `contract_id` exists.
    pub fn contract_exists(&self, contract_id: u32) -> (b: bool)
        requires
            self.wf(),
        ensures
            b == self.has_contract(contract_id),
    {
        contract_id >= 1 && contract_id as usize <= self.contracts.len()
    }

    /// The arbiter of contract `contract_id`; `None` when it has none or
    /// does not exist.
    pub fn get_arbiter(&self, contract_id: u32) -> (a: Option<AccountId>)
        requires
            self.wf(),
        ensures
            a == if self.has_contract(contract_id) {
                self.contract_at(contract_id).arbiter
            } else {
                None
            },
    {
        if contract_id == 0 || contract_id as usize > self.contracts.len() {
            return None;
        }
        self.contracts[(contract_id - 1) as usize].arbiter
    }
}

impl Escrow {
    /// Entrypoint name of [`Escrow::list_by_status`].
    pub fn list_contracts_by_status(&self, status: &ContractStatus, start: u32, limit: u32) -> (page: Vec<u32>)
        requires
            self.wf(),
        ensures
            page@ == page_of(
                buckets(self.status_index@)[spec_status_code(*status) as int],
                start as int,
                limit as int,
            ),
    {
        self.list_by_status(status, start, limit)
    }

    /// Entrypoint name of [`Escrow::list_by_participant`].
    pub fn list_contracts_by_participant(&self, participant: AccountId, role: u32, start: u32, limit: u32) -> (page: Vec<u32>)
        requires
            self.wf(),
        ensures
            page@ == page_of(participant_ids(self.participants@, participant, role), start as int, limit as int),
    {
        self.list_by_participant(participant, role, start, limit)
    }
}

/// Contracts with ids `start_id ..` (from 1 when `start_id` is 0), at most
/// `limit` of them, or `MAX_PAGE_LIMIT` when `limit` is 0 or larger.
pub open spec fn contracts_from(cs: Seq<Contract>, start_id: int, limit: int) -> Seq<Contract> {
    let start = if start_id == 0 {
        0
    } else {
        start_id - 1
    };
    let capped = if limit == 0 || limit > MAX_PAGE_LIMIT {
        MAX_PAGE_LIMIT as int
    } else {
        limit
    };
    if start >= cs.len() {
        Seq::empty()
    } else if start + capped < cs.len() {
        cs.subrange(start, start + capped)
    } else {
        cs.subrange(start, cs.len() as int)
    }
}

impl Escrow {
    /// The contracts with ids from `start_id` on (from 1 when `start_id` is
    /// 0), at most `limit` of them; a `limit` of 0 asks for a full page of
    /// `MAX_PAGE_LIMIT`.
    pub fn get_contracts_paginated(&self, start_id: u32, limit: u32) -> (page: Vec<Contract>)
        requires
            self.wf(),
        ensures
            page@ == contracts_from(self.contracts@, start_id as int, limit as int),
    {
        let start: usize = if start_id == 0 {
            0
        } else {
            (start_id - 1) as usize
        };
        let capped: usize = if limit == 0 || limit > MAX_PAGE_LIMIT {
            MAX_PAGE_LIMIT as usize
        } else {
            limit as usize
        };
        let total = self.contracts.len();
        let mut page: Vec<Contract> = Vec::new();
        if start >= total {
            return page;
        }
        let end: usize = if capped < total - start {
            start + capped
        } else {
            total
        };
        let mut i: usize = start;
        while i < end
            invariant
                start <= i <= end <= total,
                total == self.contracts@.len(),
                page@ == self.contracts@.subrange(start as int, i as int),
            decreases end - i,
        {
            page.push(self.contracts[i]);
            proof {
                assert(self.contracts@.subrange(start as int, i + 1) =~= self.contracts@.subrange(
                    start as int,
                    i as int,
                ).push(self.contracts@[i as int]));
            }
            i = i + 1;
        }
        page
    }
}

} // verus!
