//! Ledger-wide laws, proved over the same state model the store's contracts
//! use: money conservation, owner uniqueness, the guards that make a
//! transfer fail, and the safety of repeated debits against one source.

use vstd::prelude::*;

use crate::bank_repo::{
    acct_key, currency_mismatch, find_account, find_index, insufficient_funds, lemma_find_index,
    lemma_find_index_first, lemma_find_index_push, lemma_find_index_update, lower_of,
    self_transfer, transfer_admissible, transfer_step, wf_state, with_balance,
};
use crate::domain::{AccountView, Currency, TransferView};

verus! {

/// The contribution of one account to the total held in currency `c`.
pub open spec fn contribution(a: AccountView, c: Currency) -> int {
    if a.currency == c {
        a.balance as int
    } else {
        0
    }
}

/// The total balance held in currency `c` across a ledger state.
pub open spec fn total_balance(s: Seq<AccountView>, c: Currency) -> int
    decreases s.len(),
{
    if s.len() == 0 {
        0
    } else {
        contribution(s[0], c) + total_balance(s.drop_first(), c)
    }
}

/// Replacing the account at `i` moves the total of each currency by exactly
/// the difference of the two contributions.
pub proof fn lemma_total_balance_update(s: Seq<AccountView>, i: int, a: AccountView, c: Currency)
    requires
        0 <= i < s.len(),
    ensures
        total_balance(s.update(i, a), c) == total_balance(s, c) - contribution(s[i], c)
            + contribution(a, c),
    decreases s.len(),
{
    if i == 0 {
        assert(s.update(0, a).drop_first() =~= s.drop_first());
    } else {
        assert(s.update(i, a)[0] == s[0]);
        assert(s.update(i, a).drop_first() =~= s.drop_first().update(i - 1, a));
        lemma_total_balance_update(s.drop_first(), i - 1, a, c);
    }
}

/// Conservation: a successful transfer debits the source by exactly the
/// amount, credits the destination by exactly the amount, and leaves the
/// total balance of every currency unchanged.
pub proof fn lemma_transfer_conserves(s: Seq<AccountView>, td: TransferView, c: Currency)
    requires
        transfer_step(s, td) is Some,
    ensures
        ({
            let s2 = transfer_step(s, td)->0;
            let i = find_index(s, lower_of(td.from_account))->0;
            let j = find_index(s, lower_of(td.to_account))->0;
            &&& s2.len() == s.len()
            &&& total_balance(s2, c) == total_balance(s, c)
            &&& s2[i].balance == s[i].balance - td.value
            &&& s2[j].balance == s[j].balance + td.value
        }),
{
    let kf = lower_of(td.from_account);
    let kt = lower_of(td.to_account);
    lemma_find_index(s, kf);
    lemma_find_index(s, kt);
    let i = find_index(s, kf)->0;
    let j = find_index(s, kt)->0;
    assert(i != j);
    let f2 = with_balance(s[i], (s[i].balance - td.value) as u64);
    let t2 = with_balance(s[j], (s[j].balance + td.value) as u64);
    lemma_total_balance_update(s, i, f2, c);
    lemma_total_balance_update(s.update(i, f2), j, t2, c);
    assert(s.update(i, f2)[j] == s[j]);
}

/// Uniqueness: once an account is stored, any owner name that folds to the
/// same key as its owner resolves to a stored account, so a second opening
/// under that name is rejected.
pub proof fn lemma_owner_unique(s: Seq<AccountView>, a: AccountView, other: Seq<char>)
    requires
        find_account(s, acct_key(a)) is None,
        lower_of(other) == acct_key(a),
    ensures
        find_account(s.push(a), lower_of(other)) is Some,
{
    lemma_find_index_push(s, acct_key(a), a);
}

/// Exactly one account per folded owner name: under the store invariant,
/// an account that matches a key is the account the lookup returns.
pub proof fn lemma_find_unique(s: Seq<AccountView>, next_id: u64, m: int)
    requires
        wf_state(s, next_id),
        0 <= m < s.len(),
    ensures
        find_index(s, acct_key(s[m])) == Some(m),
{
    assert forall|j: int| 0 <= j < m implies acct_key(#[trigger] s[j]) != acct_key(s[m]) by {
        assert(acct_key(s[j]) != acct_key(s[m]));
    }
    lemma_find_index_first(s, acct_key(s[m]), m);
}

/// Non-negativity guard: a transfer whose amount exceeds the source balance
/// does not go through, so (balances being unsigned) no balance can ever be
/// driven below zero.
pub proof fn lemma_insufficient_rejected(s: Seq<AccountView>, td: TransferView)
    requires
        ({
            let fi = find_index(s, lower_of(td.from_account));
            fi is Some && insufficient_funds(s[fi->0], td)
        }),
    ensures
        transfer_step(s, td) is None,
{
}

/// Currency guard: a transfer succeeds only when both accounts are held in
/// the transfer's currency.
pub proof fn lemma_currency_guard(s: Seq<AccountView>, td: TransferView)
    requires
        ({
            let fi = find_index(s, lower_of(td.from_account));
            let ti = find_index(s, lower_of(td.to_account));
            fi is Some && ti is Some && currency_mismatch(s[fi->0], s[ti->0], td)
        }),
    ensures
        transfer_step(s, td) is None,
{
}

/// Self-transfer guard: a transfer whose source and destination resolve to
/// the same account does not go through, whatever the amount or balance.
pub proof fn lemma_self_transfer_guard(s: Seq<AccountView>, td: TransferView)
    requires
        ({
            let fi = find_index(s, lower_of(td.from_account));
            let ti = find_index(s, lower_of(td.to_account));
            fi is Some && ti is Some && self_transfer(s[fi->0], s[ti->0])
        }),
    ensures
        transfer_step(s, td) is None,
{
}

/// The state after `n` repetitions of the same transfer; `None` as soon as
/// one repetition fails.
pub open spec fn repeat_transfer(s: Seq<AccountView>, td: TransferView, n: nat) -> Option<
    Seq<AccountView>,
>
    decreases n,
{
    if n == 0 {
        Some(s)
    } else {
        match repeat_transfer(s, td, (n - 1) as nat) {
            Some(s2) => transfer_step(s2, td),
            None => None,
        }
    }
}

/// After `k` repetitions of an admissible transfer, exactly `k` amounts have
/// moved from the source to the destination and no other account changed.
pub proof fn lemma_repeat_transfer(s: Seq<AccountView>, td: TransferView, k: nat)
    requires
        ({
            let fi = find_index(s, lower_of(td.from_account));
            let ti = find_index(s, lower_of(td.to_account));
            &&& fi is Some
            &&& ti is Some
            &&& !self_transfer(s[fi->0], s[ti->0])
            &&& !currency_mismatch(s[fi->0], s[ti->0], td)
            &&& s[fi->0].balance >= k * td.value
            &&& s[ti->0].balance + k * td.value <= u64::MAX
        }),
    ensures
        ({
            let fi = find_index(s, lower_of(td.from_account));
            let ti = find_index(s, lower_of(td.to_account));
            let i = fi->0;
            let j = ti->0;
            &&& repeat_transfer(s, td, k) is Some
            &&& ({
                let sk = repeat_transfer(s, td, k)->0;
                &&& sk.len() == s.len()
                &&& find_index(sk, lower_of(td.from_account)) == fi
                &&& find_index(sk, lower_of(td.to_account)) == ti
                &&& sk[i] == with_balance(s[i], (s[i].balance - k * td.value) as u64)
                &&& sk[j] == with_balance(s[j], (s[j].balance + k * td.value) as u64)
                &&& forall|m: int| 0 <= m < s.len() && m != i && m != j ==> #[trigger] sk[m] == s[m]
            })
        }),
    decreases k,
{
    let kf = lower_of(td.from_account);
    let kt = lower_of(td.to_account);
    lemma_find_index(s, kf);
    lemma_find_index(s, kt);
    let i = find_index(s, kf)->0;
    let j = find_index(s, kt)->0;
    assert(i != j);
    let v = td.value as int;
    if k == 0 {
        assert(s[i] == with_balance(s[i], (s[i].balance - 0 * v) as u64));
        assert(s[j] == with_balance(s[j], (s[j].balance + 0 * v) as u64));
    } else {
        assert(k * v == (k - 1) * v + v) by (nonlinear_arith);
        assert((k - 1) * v >= 0) by (nonlinear_arith)
            requires
                k >= 1,
                v >= 0,
        ;
        lemma_repeat_transfer(s, td, (k - 1) as nat);
        let sk1 = repeat_transfer(s, td, (k - 1) as nat)->0;
        let f1 = sk1[i];
        let t1 = sk1[j];
        assert(transfer_admissible(f1, t1, td));
        let f2 = with_balance(f1, (f1.balance - td.value) as u64);
        let t2 = with_balance(t1, (t1.balance + td.value) as u64);
        lemma_find_index_update(sk1, kf, i, f2);
        lemma_find_index_update(sk1, kt, i, f2);
        lemma_find_index_update(sk1.update(i, f2), kf, j, t2);
        lemma_find_index_update(sk1.update(i, f2), kt, j, t2);
        assert(repeat_transfer(s, td, k)->0 =~= sk1.update(i, f2).update(j, t2));
    }
}

/// Concurrency safety: starting from a source balance of exactly `n` times
/// the amount, `n` repetitions of the transfer all succeed and drain the
/// source to zero, while the destination gains exactly `n` amounts — and the
/// repetition after those fails. Under the exclusive lock each store
/// mutation requires, `n` racing transfers execute as some such sequence.
pub proof fn lemma_concurrent_transfers_drain(s: Seq<AccountView>, td: TransferView, n: nat)
    requires
        td.value > 0,
        ({
            let fi = find_index(s, lower_of(td.from_account));
            let ti = find_index(s, lower_of(td.to_account));
            &&& fi is Some
            &&& ti is Some
            &&& !self_transfer(s[fi->0], s[ti->0])
            &&& !currency_mismatch(s[fi->0], s[ti->0], td)
            &&& s[fi->0].balance == n * td.value
            &&& s[ti->0].balance + n * td.value <= u64::MAX
        }),
    ensures
        ({
            let fi = find_index(s, lower_of(td.from_account));
            let ti = find_index(s, lower_of(td.to_account));
            &&& repeat_transfer(s, td, n) is Some
            &&& (repeat_transfer(s, td, n)->0)[fi->0].balance == 0
            &&& (repeat_transfer(s, td, n)->0)[ti->0].balance == s[ti->0].balance + n * td.value
            &&& repeat_transfer(s, td, n + 1) is None
        }),
{
    lemma_repeat_transfer(s, td, n);
    let kf = lower_of(td.from_account);
    let kt = lower_of(td.to_account);
    let i = find_index(s, kf)->0;
    let j = find_index(s, kt)->0;
    let sn = repeat_transfer(s, td, n)->0;
    assert(sn[i].balance == 0);
    assert(insufficient_funds(sn[i], td));
}


/// The state after applying each transfer of a batch in order; `None` as
/// soon as one fails.
pub open spec fn apply_transfers(s: Seq<AccountView>, tds: Seq<TransferView>) -> Option<
    Seq<AccountView>,
>
    decreases tds.len(),
{
    if tds.len() == 0 {
        Some(s)
    } else {
        match transfer_step(s, tds[0]) {
            Some(s2) => apply_transfers(s2, tds.drop_first()),
            None => None,
        }
    }
}

/// A fan-out batch: every transfer drains the same source owner by the same
/// amount; each destination resolves, is another account, holds the
/// transfer's currency (as the source does), and has headroom; and the
/// destinations are pairwise distinct.
pub open spec fn fan_out_batch(
    s: Seq<AccountView>,
    tds: Seq<TransferView>,
    from: Seq<char>,
    a: u64,
) -> bool {
    &&& find_index(s, lower_of(from)) is Some
    &&& forall|x: int| 0 <= x < tds.len() ==> (#[trigger] tds[x]).from_account == from
    &&& forall|x: int| 0 <= x < tds.len() ==> (#[trigger] tds[x]).value == a
    &&& forall|x: int|
        0 <= x < tds.len() ==> {
            let i = find_index(s, lower_of(from))->0;
            let ti = find_index(s, lower_of((#[trigger] tds[x]).to_account));
            &&& ti is Some
            &&& s[ti->0].id != s[i].id
            &&& s[i].currency == tds[x].currency
            &&& s[ti->0].currency == tds[x].currency
            &&& s[ti->0].balance + a <= u64::MAX
        }
    &&& forall|x: int, y: int|
        #![trigger tds[x], tds[y]]
        0 <= x < y < tds.len() ==> lower_of(tds[x].to_account) != lower_of(tds[y].to_account)
}

/// Is index `m` the destination of some transfer of the batch?
pub open spec fn batch_dest(s: Seq<AccountView>, tds: Seq<TransferView>, m: int) -> bool {
    exists|x: int|
        0 <= x < tds.len() && find_index(s, lower_of((#[trigger] tds[x]).to_account)) == Some(m)
}

/// States with pointwise equal owner keys resolve every lookup alike.
pub proof fn lemma_find_index_same_keys(s1: Seq<AccountView>, s2: Seq<AccountView>, key: Seq<char>)
    requires
        s1.len() == s2.len(),
        forall|m: int| 0 <= m < s1.len() ==> acct_key(#[trigger] s1[m]) == acct_key(s2[m]),
    ensures
        find_index(s1, key) == find_index(s2, key),
    decreases s1.len(),
{
    if s1.len() > 0 {
        assert(acct_key(s1[0]) == acct_key(s2[0]));
        assert(forall|m: int|
            0 <= m < s1.len() - 1 ==> acct_key(#[trigger] s1.drop_first()[m]) == acct_key(
                s2.drop_first()[m],
            ));
        lemma_find_index_same_keys(s1.drop_first(), s2.drop_first(), key);
    }
}

/// Fanning out: a batch of transfers of amount `a` each, from one source to
/// pairwise distinct destinations, all succeed when the source holds at
/// least the batch total; the source loses exactly the total, every
/// destination gains exactly `a`, every other account is untouched, and no
/// owner key moves.
pub proof fn lemma_fan_out_transfers(
    s: Seq<AccountView>,
    tds: Seq<TransferView>,
    from: Seq<char>,
    a: u64,
)
    requires
        fan_out_batch(s, tds, from, a),
        s[find_index(s, lower_of(from))->0].balance >= tds.len() * a,
    ensures
        ({
            let i = find_index(s, lower_of(from))->0;
            &&& apply_transfers(s, tds) is Some
            &&& ({
                let res = apply_transfers(s, tds)->0;
                &&& res.len() == s.len()
                &&& forall|m: int| 0 <= m < s.len() ==> acct_key(#[trigger] res[m]) == acct_key(s[m])
                &&& find_index(res, lower_of(from)) == Some(i)
                &&& res[i] == with_balance(s[i], (s[i].balance - tds.len() * a) as u64)
                &&& forall|x: int|
                    0 <= x < tds.len() ==> {
                        let j = find_index(s, lower_of((#[trigger] tds[x]).to_account))->0;
                        &&& find_index(res, lower_of(tds[x].to_account)) == Some(j)
                        &&& res[j] == with_balance(s[j], (s[j].balance + a) as u64)
                    }
                &&& forall|m: int|
                    0 <= m < s.len() && m != i && !batch_dest(s, tds, m) ==> #[trigger] res[m]
                        == s[m]
            })
        }),
    decreases tds.len(),
{
    let kf = lower_of(from);
    lemma_find_index(s, kf);
    let i = find_index(s, kf)->0;
    let n = tds.len() as int;
    if n == 0 {
        assert(s[i] == with_balance(s[i], (s[i].balance - 0 * a) as u64));
    } else {
        let td0 = tds[0];
        let kt0 = lower_of(td0.to_account);
        lemma_find_index(s, kt0);
        let j0 = find_index(s, kt0)->0;
        assert(n * a == (n - 1) * a + a) by (nonlinear_arith);
        assert((n - 1) * a >= 0) by (nonlinear_arith)
            requires
                n >= 1,
                a >= 0,
        ;
        let f2 = with_balance(s[i], (s[i].balance - a) as u64);
        let t2 = with_balance(s[j0], (s[j0].balance + a) as u64);
        assert(i != j0);
        assert(transfer_admissible(s[i], s[j0], td0));
        let s2 = s.update(i, f2).update(j0, t2);
        assert(transfer_step(s, td0) == Some(s2));
        assert(forall|m: int| 0 <= m < s.len() ==> acct_key(#[trigger] s2[m]) == acct_key(s[m]));
        lemma_find_index_same_keys(s2, s, kf);
        let tds2 = tds.drop_first();
        assert(forall|x: int| 0 <= x < tds2.len() ==> #[trigger] tds2[x] == tds[x + 1]);
        assert forall|x: int| 0 <= x < tds2.len() implies {
            let ti = find_index(s2, lower_of((#[trigger] tds2[x]).to_account));
            &&& ti is Some
            &&& s2[ti->0].id != s2[i].id
            &&& s2[i].currency == tds2[x].currency
            &&& s2[ti->0].currency == tds2[x].currency
            &&& s2[ti->0].balance + a <= u64::MAX
        } by {
            let ktx = lower_of(tds2[x].to_account);
            lemma_find_index_same_keys(s2, s, ktx);
            lemma_find_index(s, ktx);
            let jx = find_index(s, ktx)->0;
            assert(jx != i);
            assert(acct_key(s[jx]) == ktx && acct_key(s[j0]) == kt0);
            assert(ktx != kt0);
            assert(jx != j0);
            assert(s2[jx] == s[jx]);
        }
        assert(fan_out_batch(s2, tds2, from, a));
        assert(s2[i].balance >= tds2.len() * a);
        lemma_fan_out_transfers(s2, tds2, from, a);
        let res = apply_transfers(s2, tds2)->0;
        assert(apply_transfers(s, tds) == Some(res));
        lemma_find_index_same_keys(res, s, kf);
        assert(res[i] == with_balance(s2[i], (s2[i].balance - tds2.len() * a) as u64));
        assert(res[i] == with_balance(s[i], (s[i].balance - n * a) as u64));
        // the head's destination is no destination of the tail, so the tail
        // leaves it as the first step wrote it
        assert forall|x2: int|
            0 <= x2 < tds2.len() implies find_index(
            s2,
            lower_of((#[trigger] tds2[x2]).to_account),
        ) != Some(j0) by {
            let ktx = lower_of(tds2[x2].to_account);
            lemma_find_index_same_keys(s2, s, ktx);
            lemma_find_index(s, ktx);
            assert(ktx != kt0);
            assert(acct_key(s[find_index(s, ktx)->0]) == ktx && acct_key(s[j0]) == kt0);
        }
        assert(!batch_dest(s2, tds2, j0));
        assert(res[j0] == s2[j0]);
        lemma_find_index_same_keys(res, s, kt0);
        // each destination of the batch ends with its gain
        assert forall|x: int| 0 <= x < tds.len() implies {
            let j = find_index(s, lower_of((#[trigger] tds[x]).to_account))->0;
            &&& find_index(res, lower_of(tds[x].to_account)) == Some(j)
            &&& res[j] == with_balance(s[j], (s[j].balance + a) as u64)
        } by {
            let ktx = lower_of(tds[x].to_account);
            lemma_find_index(s, ktx);
            lemma_find_index_same_keys(res, s, ktx);
            if x == 0 {
                assert(res[j0] == t2);
            } else {
                assert(tds2[x - 1] == tds[x]);
                lemma_find_index_same_keys(s2, s, ktx);
                let jx = find_index(s, ktx)->0;
                assert(jx != i && jx != j0);
                assert(s2[jx] == s[jx]);
                assert(res[jx] == with_balance(s2[jx], (s2[jx].balance + a) as u64));
            }
        }
        // accounts that are neither the source nor a destination never move
        assert forall|m: int|
            0 <= m < s.len() && m != i && !batch_dest(s, tds, m) implies #[trigger] res[m]
            == s[m] by {
            assert(find_index(s, kt0) == Some(j0));
            assert(m != j0);
            assert(s2[m] == s[m]);
            assert forall|x2: int|
                0 <= x2 < tds2.len() implies find_index(
                s2,
                lower_of((#[trigger] tds2[x2]).to_account),
            ) != Some(m) by {
                let ktx = lower_of(tds2[x2].to_account);
                lemma_find_index_same_keys(s2, s, ktx);
                if find_index(s, ktx) == Some(m) {
                    assert(tds[x2 + 1] == tds2[x2]);
                    assert(0 <= x2 + 1 < tds.len() && find_index(
                        s,
                        lower_of(tds[x2 + 1].to_account),
                    ) == Some(m));
                    assert(batch_dest(s, tds, m));
                    assert(false);
                }
            }
            assert(!batch_dest(s2, tds2, m));
        }
    }
}

} // verus!
