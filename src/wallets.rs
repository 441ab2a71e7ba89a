//! Paymaster wallets and their balances, and the reading of a balance from
//! its hexadecimal RPC form.
use vstd::prelude::*;

verus! {

/// A wallet address and its balance in wei, as decimal text.
#[derive(Debug)]
pub struct Wallet {
    address: String,
    balance: String,
}

impl Wallet {
    pub closed spec fn spec_address(&self) -> Seq<char> {
        self.address@
    }

    pub closed spec fn spec_balance(&self) -> Seq<char> {
        self.balance@
    }

    pub fn new(address: String, balance: String) -> (r: Self)
        ensures
            r.spec_address() == address@,
            r.spec_balance() == balance@,
    {
        Wallet { address, balance }
    }

    /// Replaces the balance; the address stays.
    pub fn update_balance(&mut self, balance: String)
        ensures
            final(self).spec_balance() == balance@,
            final(self).spec_address() == old(self).spec_address(),
    {
        self.balance = balance;
    }

    pub fn address(&self) -> (r: &str)
        ensures
            r@ == self.spec_address(),
    {
        self.address.as_str()
    }

    pub fn balance(&self) -> (r: &str)
        ensures
            r@ == self.spec_balance(),
    {
        self.balance.as_str()
    }
}

/// The deposit and the validating paymaster wallets.
#[derive(Debug)]
pub struct PaymasterWallets {
    deposit: Wallet,
    validating: Wallet,
}

impl PaymasterWallets {
    pub closed spec fn spec_deposit(&self) -> Wallet {
        self.deposit
    }

    pub closed spec fn spec_validating(&self) -> Wallet {
        self.validating
    }

    pub fn new(deposit: Wallet, validating: Wallet) -> (r: Self)
        ensures
            r.spec_deposit() == deposit,
            r.spec_validating() == validating,
    {
        PaymasterWallets { deposit, validating }
    }

    pub fn deposit(&self) -> (r: &Wallet)
        ensures
            *r == self.spec_deposit(),
    {
        &self.deposit
    }

    pub fn validating(&self) -> (r: &Wallet)
        ensures
            *r == self.spec_validating(),
    {
        &self.validating
    }

    /// Sets both balances; the addresses stay.
    pub fn update_balances(&mut self, deposit_balance: String, validating_balance: String)
        ensures
            final(self).spec_deposit().spec_balance() == deposit_balance@,
            final(self).spec_validating().spec_balance() == validating_balance@,
            final(self).spec_deposit().spec_address() == old(self).spec_deposit().spec_address(),
            final(self).spec_validating().spec_address() == old(self).spec_validating().spec_address(),
    {
        self.deposit.update_balance(deposit_balance);
        self.validating.update_balance(validating_balance);
    }
}

/// The value of a hexadecimal digit, or `None`.
pub open spec fn hex_digit(c: char) -> Option<int> {
    if '0' <= c <= '9' {
        Some(c as int - '0' as int)
    } else if 'a' <= c <= 'f' {
        Some(c as int - 'a' as int + 10)
    } else if 'A' <= c <= 'F' {
        Some(c as int - 'A' as int + 10)
    } else {
        None
    }
}

pub open spec fn all_hex(s: Seq<char>) -> bool {
    forall|i: int| 0 <= i < s.len() ==> (#[trigger] hex_digit(s[i])) is Some
}

/// The value of a string of hexadecimal digits.
pub open spec fn hex_value(s: Seq<char>) -> int
    decreases s.len(),
{
    if s.len() == 0 {
        0
    } else {
        hex_value(s.drop_last()) * 16 + hex_digit(s.last())->Some_0
    }
}

/// What a balance reply reads as: `0x`, then what `u128::from_str_radix`
/// accepts in base 16 (an optional `+`, then one or more hex digits whose
/// value fits in 128 bits).
pub open spec fn hex_balance(s: Seq<char>) -> Option<u128> {
    if s.len() >= 2 && s[0] == '0' && s[1] == 'x' {
        let t = s.subrange(2, s.len() as int);
        let d = if t.len() > 0 && t[0] == '+' { t.drop_first() } else { t };
        if d.len() > 0 && all_hex(d) && hex_value(d) <= u128::MAX {
            Some(hex_value(d) as u128)
        } else {
            None
        }
    } else {
        None
    }
}

proof fn lemma_hex_value_nonneg(s: Seq<char>)
    requires
        all_hex(s),
    ensures
        hex_value(s) >= 0,
    decreases s.len(),
{
    if s.len() > 0 {
        lemma_hex_value_nonneg(s.drop_last());
    }
}

proof fn lemma_hex_value_prefix(s: Seq<char>, m: int)
    requires
        all_hex(s),
        0 <= m <= s.len(),
    ensures
        hex_value(s.take(m)) <= hex_value(s),
    decreases s.len(),
{
    if m < s.len() {
        lemma_hex_value_prefix(s.drop_last(), m);
        assert(s.drop_last().take(m) =~= s.take(m));
        lemma_hex_value_nonneg(s.drop_last());
        assert(hex_digit(s[s.len() - 1]) is Some);
    } else {
        assert(s.take(m) =~= s);
    }
}

fn hex_digit_of(c: char) -> (r: Option<u128>)
    ensures
        match hex_digit(c) {
            Some(v) => r == Some(v as u128) && 0 <= v < 16,
            None => r is None,
        },
{
    if '0' <= c && c <= '9' {
        Some((c as u32 - '0' as u32) as u128)
    } else if 'a' <= c && c <= 'f' {
        Some((c as u32 - 'a' as u32 + 10) as u128)
    } else if 'A' <= c && c <= 'F' {
        Some((c as u32 - 'A' as u32 + 10) as u128)
    } else {
        None
    }
}

/// Reads a wallet balance from an `eth_getBalance` reply such as `0x1bc16d674ec80000`.
pub fn balance_from_hex(s: &str) -> (r: Option<u128>)
    ensures
        r == hex_balance(s@),
{
    let n = s.unicode_len();
    if n < 2 || s.get_char(0) != '0' || s.get_char(1) != 'x' {
        return None;
    }
    let ghost t = s@.subrange(2, n as int);
    let mut start: usize = 2;
    if n > 2 && s.get_char(2) == '+' {
        start = 3;
    }
    let ghost d = if t.len() > 0 && t[0] == '+' { t.drop_first() } else { t };
    assert(d =~= s@.subrange(start as int, n as int));
    if start == n {
        return None;
    }
    let mut val: u128 = 0;
    let mut i: usize = start;
    while i < n
        invariant
            start <= i <= n,
            n == s@.len(),
            2 <= start,
            s@[0] == '0' && s@[1] == 'x',
            t == s@.subrange(2, n as int),
            d == (if t.len() > 0 && t[0] == '+' { t.drop_first() } else { t }),
            d =~= s@.subrange(start as int, n as int),
            all_hex(d.take(i - start)),
            val as int == hex_value(d.take(i - start)),
        decreases n - i,
    {
        let c = s.get_char(i);
        let ghost pre = d.take(i - start);
        let ghost next = d.take(i + 1 - start);
        assert(next.drop_last() =~= pre);
        assert(next.last() == c);
        assert(d[i - start] == s@[i as int]);
        let digit = match hex_digit_of(c) {
            Some(v) => v,
            None => {
                assert(!all_hex(d)) by {
                    assert(hex_digit(d[i - start]) is None);
                }
                return None;
            },
        };
        if val > 0x0fff_ffff_ffff_ffff_ffff_ffff_ffff_ffffu128 {
            proof {
                assert(hex_value(next) == val * 16 + digit);
                assert(val * 16 + digit > u128::MAX) by (nonlinear_arith)
                    requires
                        val > 0x0fff_ffff_ffff_ffff_ffff_ffff_ffff_ffffu128,
                        digit >= 0,
                ;
                assert(d.take(i + 1 - start) == next);
                if all_hex(d) {
                    lemma_hex_value_prefix(d, i + 1 - start);
                }
            }
            return None;
        }
        val = val * 16 + digit;
        proof {
            assert forall|k: int| 0 <= k < next.len() implies (#[trigger] hex_digit(next[k])) is Some by {
                if k < pre.len() {
                    assert(next[k] == pre[k]);
                }
            }
        }
        i += 1;
    }
    assert(d.take(n - start) =~= d);
    Some(val)
}

} // verus!
