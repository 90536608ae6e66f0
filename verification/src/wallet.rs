//! A wallet with a readable identifier and a balance, together with the
//! transfer operations on it: sending, moving ownership, transferring
//! between two wallets, summing, and backing up.

use vstd::prelude::*;

use crate::digits::spec_udec;
use crate::digits::u64_to_string;

verus! {

/// A wallet: an identifier string and a balance.
#[derive(Debug, Clone)]
pub struct Wallet {
    pub id: String,
    pub balance: u64,
}

/// The identifier string given to the wallet numbered `n`.
pub open spec fn spec_wallet_id(n: nat) -> Seq<char> {
    "wallet_"@ + spec_udec(n)
}

/// The description line produced for a wallet.
pub open spec fn spec_wallet_info(w: Wallet) -> Seq<char> {
    "Wallet["@ + w.id@ + "] - Balance: "@ + spec_udec(w.balance as nat) + " ETH"@
}

/// The sum of the balances of every wallet in `s`.
pub open spec fn spec_total_balance(s: Seq<Wallet>) -> int
    decreases s.len(),
{
    if s.len() == 0 {
        0
    } else {
        spec_total_balance(s.drop_last()) + s.last().balance
    }
}

/// Builds the wallet numbered `id_num` with the given starting balance.
pub fn new_wallet(id_num: u64, balance: u64) -> (w: Wallet)
    ensures
        w.balance == balance,
        w.id@ == spec_wallet_id(id_num as nat),
{
    let mut id = String::from_str("wallet_");
    id.append(u64_to_string(id_num).as_str());
    Wallet { id, balance }
}

/// Reads the balance without taking the wallet.
pub fn check_balance(wallet: &Wallet) -> (b: u64)
    ensures
        b == wallet.balance,
{
    wallet.balance
}

/// Sends `amount` out of the wallet. Succeeds, and deducts, exactly when the
/// balance covers the amount; otherwise the wallet is left unchanged.
pub fn send_money(wallet: &mut Wallet, amount: u64) -> (sent: bool)
    ensures
        sent == (old(wallet).balance >= amount),
        final(wallet).id@ == old(wallet).id@,
        final(wallet).balance as int == if sent {
            old(wallet).balance - amount
        } else {
            old(wallet).balance as int
        },
{
    if wallet.balance >= amount {
        wallet.balance = wallet.balance - amount;
        true
    } else {
        false
    }
}

/// Moves the wallet to a new owner; nothing about it changes.
pub fn transfer_ownership(wallet: Wallet) -> (w: Wallet)
    ensures
        w == wallet,
{
    wallet
}

/// Moves `amount` from one wallet to another. Succeeds exactly when the
/// source balance covers the amount; otherwise both wallets are unchanged.
pub fn transfer_between(from: &mut Wallet, to: &mut Wallet, amount: u64) -> (sent: bool)
    requires
        old(from).balance >= amount ==> old(to).balance + amount <= u64::MAX,
    ensures
        sent == (old(from).balance >= amount),
        final(from).id@ == old(from).id@,
        final(to).id@ == old(to).id@,
        final(from).balance as int == if sent {
            old(from).balance - amount
        } else {
            old(from).balance as int
        },
        final(to).balance as int == if sent {
            old(to).balance + amount
        } else {
            old(to).balance as int
        },
{
    if from.balance >= amount {
        from.balance = from.balance - amount;
        to.balance = to.balance + amount;
        true
    } else {
        false
    }
}

/// Formats a wallet as a one-line description.
pub fn get_wallet_info(wallet: &Wallet) -> (s: String)
    ensures
        s@ == spec_wallet_info(*wallet),
{
    let mut s = String::from_str("Wallet[");
    s.append(wallet.id.as_str());
    s.append("] - Balance: ");
    s.append(u64_to_string(wallet.balance).as_str());
    s.append(" ETH");
    proof {
        assert(s@ =~= spec_wallet_info(*wallet));
    }
    s
}

/// Sums the balances of all the given wallets.
pub fn batch_check(wallets: &[Wallet]) -> (total: u64)
    requires
        spec_total_balance(wallets@) <= u64::MAX,
    ensures
        total as int == spec_total_balance(wallets@),
{
    let mut total: u64 = 0;
    let mut i: usize = 0;
    while i < wallets.len()
        invariant
            i <= wallets@.len(),
            spec_total_balance(wallets@) <= u64::MAX,
            total as int == spec_total_balance(wallets@.take(i as int)),
        decreases wallets@.len() - i,
    {
        proof {
            lemma_total_balance_take_step(wallets@, i as int);
            lemma_prefix_total_le(wallets@, i as int + 1);
        }
        total = total + wallets[i].balance;
        i = i + 1;
    }
    proof {
        assert(wallets@.take(wallets@.len() as int) =~= wallets@);
    }
    total
}

/// Clones a wallet into a backup whose identifier gains a suffix; the
/// balance is kept as it is.
pub fn clone_wallet(wallet: &Wallet) -> (w: Wallet)
    ensures
        w.balance == wallet.balance,
        w.id@ == wallet.id@ + "_backup"@,
{
    let mut id = wallet.id.clone();
    id.append("_backup");
    Wallet { id, balance: wallet.balance }
}

/// Taking one more wallet adds exactly its balance to the sum.
proof fn lemma_total_balance_take_step(s: Seq<Wallet>, i: int)
    requires
        0 <= i < s.len(),
    ensures
        spec_total_balance(s.take(i + 1)) == spec_total_balance(s.take(i)) + s[i].balance,
{
    assert(s.take(i + 1).drop_last() =~= s.take(i));
    assert(s.take(i + 1).last() == s[i]);
}

/// The sum over a prefix never exceeds the sum over the whole sequence.
proof fn lemma_prefix_total_le(s: Seq<Wallet>, j: int)
    requires
        0 <= j <= s.len(),
    ensures
        spec_total_balance(s.take(j)) <= spec_total_balance(s),
    decreases s.len() - j,
{
    if j < s.len() {
        lemma_total_balance_take_step(s, j);
        lemma_prefix_total_le(s, j + 1);
    } else {
        assert(s.take(j) =~= s);
    }
}

} // verus!
