//! One page of a paginated feed: its records and the continuation token.
use vstd::prelude::*;
use crate::json::{Json, trim_quotes, trim_quotes_spec};
use crate::records::{
    Account, AccountView, DecodeError, UserOp, UserOpView, account_spec, lemma_abc_is_not_u64, lemma_bad_fee_fails,
    lemma_missing_hash_fails, user_op_spec,
};

verus! {

/// The records of one operations page and the token of the next page.
pub struct UserOpsResponse {
    pub user_ops: Vec<UserOp>,
    pub next_page_token: Option<String>,
}

/// The records of one accounts page and the token of the next page.
pub struct AccountsResponse {
    pub accounts: Vec<Account>,
    pub next_page_token: Option<String>,
}

pub open spec fn opt_text(t: Option<String>) -> Option<Seq<char>> {
    match t {
        Some(s) => Some(s@),
        None => None,
    }
}

pub open spec fn user_op_views(ops: Seq<UserOp>) -> Seq<UserOpView> {
    ops.map_values(|o: UserOp| o@)
}

pub open spec fn account_views(accts: Seq<Account>) -> Seq<AccountView> {
    accts.map_values(|a: Account| a@)
}

/// The `items` array of a page.
pub open spec fn items_spec(page: Json) -> Result<Seq<Json>, DecodeError> {
    match page.spec_get("items"@) {
        Some(Json::Array(xs)) => Ok(xs@),
        Some(_) => Err(DecodeError::InvalidType),
        None => Err(DecodeError::MissingItems),
    }
}

/// `next_page_params.page_token` when it is a string, with the quote
/// characters at its ends removed; `None` otherwise.
pub open spec fn next_token_spec(page: Json) -> Option<Seq<char>> {
    match page.spec_get("next_page_params"@) {
        Some(params) => match params.spec_get("page_token"@) {
            Some(Json::Str(t)) => Some(trim_quotes_spec(t@)),
            _ => None,
        },
        None => None,
    }
}

/// Every item decoded as an operation; the first failure otherwise.
pub open spec fn user_ops_spec(items: Seq<Json>) -> Result<Seq<UserOpView>, DecodeError>
    decreases items.len(),
{
    if items.len() == 0 {
        Ok(Seq::empty())
    } else {
        match user_ops_spec(items.drop_last()) {
            Err(e) => Err(e),
            Ok(prev) => match user_op_spec(items.last()) {
                Err(e) => Err(e),
                Ok(op) => Ok(prev.push(op)),
            },
        }
    }
}

/// Every item decoded as an account; the first failure otherwise.
pub open spec fn accounts_spec(items: Seq<Json>) -> Result<Seq<AccountView>, DecodeError>
    decreases items.len(),
{
    if items.len() == 0 {
        Ok(Seq::empty())
    } else {
        match accounts_spec(items.drop_last()) {
            Err(e) => Err(e),
            Ok(prev) => match account_spec(items.last()) {
                Err(e) => Err(e),
                Ok(a) => Ok(prev.push(a)),
            },
        }
    }
}

/// What an operations page decodes to.
pub open spec fn user_ops_page_spec(page: Json) -> Result<
    (Seq<UserOpView>, Option<Seq<char>>),
    DecodeError,
> {
    match items_spec(page) {
        Err(e) => Err(e),
        Ok(items) => match user_ops_spec(items) {
            Err(e) => Err(e),
            Ok(ops) => Ok((ops, next_token_spec(page))),
        },
    }
}

/// What an accounts page decodes to.
pub open spec fn accounts_page_spec(page: Json) -> Result<
    (Seq<AccountView>, Option<Seq<char>>),
    DecodeError,
> {
    match items_spec(page) {
        Err(e) => Err(e),
        Ok(items) => match accounts_spec(items) {
            Err(e) => Err(e),
            Ok(accts) => Ok((accts, next_token_spec(page))),
        },
    }
}

/// The `items` array of a page.
fn page_items(page: &Json) -> (r: Result<&Vec<Json>, DecodeError>)
    ensures
        match r {
            Ok(xs) => items_spec(*page) == Ok::<Seq<Json>, DecodeError>(xs@),
            Err(e) => items_spec(*page) == Err::<Seq<Json>, DecodeError>(e),
        },
{
    match page.get(&String::from_str("items")) {
        Some(Json::Array(xs)) => Ok(xs),
        Some(_) => Err(DecodeError::InvalidType),
        None => Err(DecodeError::MissingItems),
    }
}

/// The continuation token of a page, quotes at its ends removed.
pub fn next_page_token(page: &Json) -> (r: Option<String>)
    ensures
        opt_text(r) == next_token_spec(*page),
{
    match page.get(&String::from_str("next_page_params")) {
        Some(params) => match params.get(&String::from_str("page_token")) {
            Some(Json::Str(t)) => Some(trim_quotes(t.as_str())),
            _ => None,
        },
        None => None,
    }
}

impl UserOpsResponse {
    /// Decodes an operations page: every item must decode; the token is
    /// optional.
    pub fn decode(page: &Json) -> (r: Result<UserOpsResponse, DecodeError>)
        ensures
            match r {
                Ok(p) => user_ops_page_spec(*page) == Ok::<_, DecodeError>(
                    (user_op_views(p.user_ops@), opt_text(p.next_page_token)),
                ),
                Err(e) => user_ops_page_spec(*page) == Err::<(Seq<UserOpView>, Option<Seq<char>>), _>(e),
            },
    {
        let items = match page_items(page) {
            Ok(xs) => xs,
            Err(e) => return Err(e),
        };
        let mut user_ops: Vec<UserOp> = Vec::new();
        let mut i: usize = 0;
        assert(items@.take(0) =~= Seq::<Json>::empty());
        assert(user_op_views(user_ops@) =~= Seq::empty());
        while i < items.len()
            invariant
                i <= items@.len(),
                items_spec(*page) == Ok::<Seq<Json>, DecodeError>(items@),
                user_ops_spec(items@.take(i as int)) == Ok::<_, DecodeError>(user_op_views(user_ops@)),
            decreases items.len() - i,
        {
            assert(items@.take(i + 1).drop_last() =~= items@.take(i as int));
            match UserOp::decode(&items[i]) {
                Ok(op) => {
                    let ghost before = user_ops@;
                    let ghost v = op@;
                    user_ops.push(op);
                    assert(user_op_views(user_ops@) =~= user_op_views(before).push(v));
                },
                Err(e) => {
                    proof {
                        lemma_user_ops_prefix_err(items@, (i + 1) as int);
                    }
                    return Err(e);
                },
            }
            i += 1;
        }
        assert(items@.take(items@.len() as int) =~= items@);
        let next_page_token = next_page_token(page);
        Ok(UserOpsResponse { user_ops, next_page_token })
    }
}

impl AccountsResponse {
    /// Decodes an accounts page: every item must decode; the token is
    /// optional.
    pub fn decode(page: &Json) -> (r: Result<AccountsResponse, DecodeError>)
        ensures
            match r {
                Ok(p) => accounts_page_spec(*page) == Ok::<_, DecodeError>(
                    (account_views(p.accounts@), opt_text(p.next_page_token)),
                ),
                Err(e) => accounts_page_spec(*page) == Err::<(Seq<AccountView>, Option<Seq<char>>), _>(e),
            },
    {
        let items = match page_items(page) {
            Ok(xs) => xs,
            Err(e) => return Err(e),
        };
        let mut accounts: Vec<Account> = Vec::new();
        let mut i: usize = 0;
        assert(items@.take(0) =~= Seq::<Json>::empty());
        assert(account_views(accounts@) =~= Seq::empty());
        while i < items.len()
            invariant
                i <= items@.len(),
                items_spec(*page) == Ok::<Seq<Json>, DecodeError>(items@),
                accounts_spec(items@.take(i as int)) == Ok::<_, DecodeError>(account_views(accounts@)),
            decreases items.len() - i,
        {
            assert(items@.take(i + 1).drop_last() =~= items@.take(i as int));
            match Account::decode(&items[i]) {
                Ok(a) => {
                    let ghost before = accounts@;
                    let ghost v = a@;
                    accounts.push(a);
                    assert(account_views(accounts@) =~= account_views(before).push(v));
                },
                Err(e) => {
                    proof {
                        lemma_accounts_prefix_err(items@, (i + 1) as int);
                    }
                    return Err(e);
                },
            }
            i += 1;
        }
        assert(items@.take(items@.len() as int) =~= items@);
        let next_page_token = next_page_token(page);
        Ok(AccountsResponse { accounts, next_page_token })
    }
}

/// Once a prefix of the items fails, the whole sequence fails the same way.
proof fn lemma_user_ops_prefix_err(items: Seq<Json>, m: int)
    requires
        0 <= m <= items.len(),
        user_ops_spec(items.take(m)) is Err,
    ensures
        user_ops_spec(items) == user_ops_spec(items.take(m)),
    decreases items.len() - m,
{
    if m < items.len() {
        assert(items.take(m + 1).drop_last() =~= items.take(m));
        lemma_user_ops_prefix_err(items, m + 1);
    } else {
        assert(items.take(m) =~= items);
    }
}

proof fn lemma_accounts_prefix_err(items: Seq<Json>, m: int)
    requires
        0 <= m <= items.len(),
        accounts_spec(items.take(m)) is Err,
    ensures
        accounts_spec(items) == accounts_spec(items.take(m)),
    decreases items.len() - m,
{
    if m < items.len() {
        assert(items.take(m + 1).drop_last() =~= items.take(m));
        lemma_accounts_prefix_err(items, m + 1);
    } else {
        assert(items.take(m) =~= items);
    }
}

} // verus!

verus! {

/// A page with one record that does not decode as an operation does not
/// decode.
pub proof fn lemma_bad_operation_fails_page(page: Json, k: int)
    requires
        items_spec(page) is Ok,
        0 <= k < items_spec(page)->Ok_0.len(),
        user_op_spec(items_spec(page)->Ok_0[k]) is Err,
    ensures
        user_ops_page_spec(page) is Err,
{
    let xs = items_spec(page)->Ok_0;
    assert(xs.take(k + 1).drop_last() =~= xs.take(k));
    assert(xs.take(k + 1).last() == xs[k]);
    lemma_user_ops_prefix_err(xs, k + 1);
}

/// A page holding an operation whose `address` has no string `hash` does
/// not decode.
pub proof fn lemma_page_with_hashless_operation_fails(page: Json, k: int, address: Json)
    requires
        items_spec(page) is Ok,
        0 <= k < items_spec(page)->Ok_0.len(),
        items_spec(page)->Ok_0[k].spec_get("address"@) == Some(address),
        !(address.spec_get("hash"@) matches Some(Json::Str(_))),
    ensures
        user_ops_page_spec(page) is Err,
{
    lemma_missing_hash_fails(items_spec(page)->Ok_0[k], address);
    lemma_bad_operation_fails_page(page, k);
}

/// A page holding an operation whose `fee` is `"abc"` does not decode.
pub proof fn lemma_page_with_abc_fee_fails(page: Json, k: int, fee: String)
    requires
        items_spec(page) is Ok,
        0 <= k < items_spec(page)->Ok_0.len(),
        items_spec(page)->Ok_0[k].spec_get("fee"@) == Some(Json::Str(fee)),
        fee@ == "abc"@,
    ensures
        user_ops_page_spec(page) is Err,
{
    lemma_abc_is_not_u64();
    lemma_bad_fee_fails(items_spec(page)->Ok_0[k], fee);
    lemma_bad_operation_fails_page(page, k);
}

/// A page with one record that does not decode as an account does not
/// decode.
pub proof fn lemma_bad_account_fails_page(page: Json, k: int)
    requires
        items_spec(page) is Ok,
        0 <= k < items_spec(page)->Ok_0.len(),
        account_spec(items_spec(page)->Ok_0[k]) is Err,
    ensures
        accounts_page_spec(page) is Err,
{
    let xs = items_spec(page)->Ok_0;
    assert(xs.take(k + 1).drop_last() =~= xs.take(k));
    assert(xs.take(k + 1).last() == xs[k]);
    lemma_accounts_prefix_err(xs, k + 1);
}

} // verus!
