//! Operation and account records, and the decoding of one page of either
//! feed from its JSON document.
use vstd::prelude::*;
use crate::json::{Json, JsonNumber, parse_u64, trim_quotes, trim_quotes_spec, u64_text};

verus! {

/// Why a page or a record could not be decoded.
#[derive(Clone, Copy, Debug, PartialEq, Eq, Structural)]
pub enum DecodeError {
    /// The page has no `items` member.
    MissingItems,
    /// A required member is absent.
    MissingField,
    /// The `address` member is not an object with a string `hash`.
    MissingAddressHash,
    /// A member has the wrong JSON type.
    InvalidType,
    /// A numeric string is not a decimal `u64`.
    InvalidInteger,
}

/// One user operation: who sent it, what it cost, and when.
#[derive(Debug)]
pub struct UserOp {
    pub sender: String,
    pub gas_used: u64,
    /// RFC 3339 text, as delivered.
    pub timestamp: String,
}

/// One account: its address, when it was created (empty when unknown) and
/// the gas it used.
#[derive(Debug)]
pub struct Account {
    pub address: String,
    /// RFC 3339 text, or empty.
    pub creation_timestamp: String,
    pub gas_used: u64,
}

pub struct UserOpView {
    pub sender: Seq<char>,
    pub gas_used: u64,
    pub timestamp: Seq<char>,
}

pub struct AccountView {
    pub address: Seq<char>,
    pub creation_timestamp: Seq<char>,
    pub gas_used: u64,
}

impl View for UserOp {
    type V = UserOpView;

    open spec fn view(&self) -> UserOpView {
        UserOpView { sender: self.sender@, gas_used: self.gas_used, timestamp: self.timestamp@ }
    }
}

impl View for Account {
    type V = AccountView;

    open spec fn view(&self) -> AccountView {
        AccountView {
            address: self.address@,
            creation_timestamp: self.creation_timestamp@,
            gas_used: self.gas_used,
        }
    }
}

impl Clone for UserOp {
    fn clone(&self) -> (r: Self)
        ensures
            r == *self,
    {
        UserOp { sender: self.sender.clone(), gas_used: self.gas_used, timestamp: self.timestamp.clone() }
    }
}

impl Clone for Account {
    fn clone(&self) -> (r: Self)
        ensures
            r == *self,
    {
        Account {
            address: self.address.clone(),
            creation_timestamp: self.creation_timestamp.clone(),
            gas_used: self.gas_used,
        }
    }
}

/// The `hash` string inside an `address` member.
pub open spec fn address_hash_spec(v: Option<Json>) -> Result<Seq<char>, DecodeError> {
    match v {
        Some(a) => match a.spec_get("hash"@) {
            Some(Json::Str(h)) => Ok(h@),
            _ => Err(DecodeError::MissingAddressHash),
        },
        None => Err(DecodeError::MissingAddressHash),
    }
}

/// A fee: a JSON string holding a decimal `u64`.
pub open spec fn fee_spec(v: Option<Json>) -> Result<u64, DecodeError> {
    match v {
        Some(Json::Str(s)) => match u64_text(s@) {
            Some(n) => Ok(n),
            None => Err(DecodeError::InvalidInteger),
        },
        Some(_) => Err(DecodeError::InvalidType),
        None => Err(DecodeError::MissingField),
    }
}

/// A required string member.
pub open spec fn text_spec(v: Option<Json>) -> Result<Seq<char>, DecodeError> {
    match v {
        Some(Json::Str(s)) => Ok(s@),
        Some(_) => Err(DecodeError::InvalidType),
        None => Err(DecodeError::MissingField),
    }
}

/// A string member that may be `null` or absent, both read as empty.
pub open spec fn null_or_text_spec(v: Option<Json>) -> Result<Seq<char>, DecodeError> {
    match v {
        Some(Json::Str(s)) => Ok(s@),
        Some(Json::Null) | None => Ok(Seq::empty()),
        Some(_) => Err(DecodeError::InvalidType),
    }
}

/// A `u64` number member that defaults to 0 when absent.
pub open spec fn count_or_zero_spec(v: Option<Json>) -> Result<u64, DecodeError> {
    match v {
        Some(Json::Number(JsonNumber::PosInt(n))) => Ok(n),
        Some(_) => Err(DecodeError::InvalidType),
        None => Ok(0),
    }
}

/// What a JSON value decodes to as a user operation.
pub open spec fn user_op_spec(v: Json) -> Result<UserOpView, DecodeError> {
    if !(v is Object) {
        Err(DecodeError::InvalidType)
    } else {
        match address_hash_spec(v.spec_get("address"@)) {
            Err(e) => Err(e),
            Ok(sender) => match fee_spec(v.spec_get("fee"@)) {
                Err(e) => Err(e),
                Ok(gas_used) => match text_spec(v.spec_get("timestamp"@)) {
                    Err(e) => Err(e),
                    Ok(timestamp) => Ok(UserOpView { sender, gas_used, timestamp }),
                },
            },
        }
    }
}

/// What a JSON value decodes to as an account.
pub open spec fn account_spec(v: Json) -> Result<AccountView, DecodeError> {
    if !(v is Object) {
        Err(DecodeError::InvalidType)
    } else {
        match address_hash_spec(v.spec_get("address"@)) {
            Err(e) => Err(e),
            Ok(address) => match null_or_text_spec(v.spec_get("creation_timestamp"@)) {
                Err(e) => Err(e),
                Ok(creation_timestamp) => match count_or_zero_spec(v.spec_get("gas_used"@)) {
                    Err(e) => Err(e),
                    Ok(gas_used) => Ok(AccountView { address, creation_timestamp, gas_used }),
                },
            },
        }
    }
}

/// Reads the `hash` string of an `address` member.
pub fn get_address_hash(v: Option<&Json>) -> (r: Result<String, DecodeError>)
    ensures
        match r {
            Ok(s) => address_hash_spec(opt_value(v)) == Ok::<Seq<char>, DecodeError>(s@),
            Err(e) => address_hash_spec(opt_value(v)) == Err::<Seq<char>, DecodeError>(e),
        },
{
    let key = String::from_str("hash");
    match v {
        Some(a) => match a.get(&key) {
            Some(Json::Str(h)) => Ok(h.clone()),
            _ => Err(DecodeError::MissingAddressHash),
        },
        None => Err(DecodeError::MissingAddressHash),
    }
}

/// Reads a fee: a JSON string holding a decimal `u64`.
pub fn convert_to_u64(v: Option<&Json>) -> (r: Result<u64, DecodeError>)
    ensures
        r == fee_spec(opt_value(v)),
{
    match v {
        Some(Json::Str(s)) => match parse_u64(s.as_str()) {
            Some(n) => Ok(n),
            None => Err(DecodeError::InvalidInteger),
        },
        Some(_) => Err(DecodeError::InvalidType),
        None => Err(DecodeError::MissingField),
    }
}

/// Reads a required string member.
fn read_text(v: Option<&Json>) -> (r: Result<String, DecodeError>)
    ensures
        match r {
            Ok(s) => text_spec(opt_value(v)) == Ok::<Seq<char>, DecodeError>(s@),
            Err(e) => text_spec(opt_value(v)) == Err::<Seq<char>, DecodeError>(e),
        },
{
    match v {
        Some(Json::Str(s)) => Ok(s.clone()),
        Some(_) => Err(DecodeError::InvalidType),
        None => Err(DecodeError::MissingField),
    }
}

/// Reads a string member that may be `null` or absent; both give "".
pub fn from_null_or_string(v: Option<&Json>) -> (r: Result<String, DecodeError>)
    ensures
        match r {
            Ok(s) => null_or_text_spec(opt_value(v)) == Ok::<Seq<char>, DecodeError>(s@),
            Err(e) => null_or_text_spec(opt_value(v)) == Err::<Seq<char>, DecodeError>(e),
        },
{
    match v {
        Some(Json::Str(s)) => Ok(s.clone()),
        Some(Json::Null) | None => Ok(String::new()),
        Some(_) => Err(DecodeError::InvalidType),
    }
}

/// Reads a `u64` number member that defaults to 0 when absent.
fn read_count_or_zero(v: Option<&Json>) -> (r: Result<u64, DecodeError>)
    ensures
        r == count_or_zero_spec(opt_value(v)),
{
    match v {
        Some(Json::Number(JsonNumber::PosInt(n))) => Ok(*n),
        Some(_) => Err(DecodeError::InvalidType),
        None => Ok(0),
    }
}

/// The value an optional reference points to.
pub open spec fn opt_value(v: Option<&Json>) -> Option<Json> {
    match v {
        Some(x) => Some(*x),
        None => None,
    }
}

impl UserOp {
    /// Decodes one operation record.
    pub fn decode(v: &Json) -> (r: Result<UserOp, DecodeError>)
        ensures
            match r {
                Ok(op) => user_op_spec(*v) == Ok::<UserOpView, DecodeError>(op@),
                Err(e) => user_op_spec(*v) == Err::<UserOpView, DecodeError>(e),
            },
    {
        if !matches!(v, Json::Object(_)) {
            return Err(DecodeError::InvalidType);
        }
        let sender = match get_address_hash(v.get(&String::from_str("address"))) {
            Ok(s) => s,
            Err(e) => return Err(e),
        };
        let gas_used = match convert_to_u64(v.get(&String::from_str("fee"))) {
            Ok(n) => n,
            Err(e) => return Err(e),
        };
        let timestamp = match read_text(v.get(&String::from_str("timestamp"))) {
            Ok(s) => s,
            Err(e) => return Err(e),
        };
        Ok(UserOp { sender, gas_used, timestamp })
    }
}

impl Account {
    /// Decodes one account record.
    pub fn decode(v: &Json) -> (r: Result<Account, DecodeError>)
        ensures
            match r {
                Ok(a) => account_spec(*v) == Ok::<AccountView, DecodeError>(a@),
                Err(e) => account_spec(*v) == Err::<AccountView, DecodeError>(e),
            },
    {
        if !matches!(v, Json::Object(_)) {
            return Err(DecodeError::InvalidType);
        }
        let address = match get_address_hash(v.get(&String::from_str("address"))) {
            Ok(s) => s,
            Err(e) => return Err(e),
        };
        let creation_timestamp = match from_null_or_string(v.get(&String::from_str("creation_timestamp"))) {
            Ok(s) => s,
            Err(e) => return Err(e),
        };
        let gas_used = match read_count_or_zero(v.get(&String::from_str("gas_used"))) {
            Ok(n) => n,
            Err(e) => return Err(e),
        };
        Ok(Account { address, creation_timestamp, gas_used })
    }
}

} // verus!

verus! {

/// A record whose `address` has no string `hash` decodes neither as an
/// operation nor as an account.
pub proof fn lemma_missing_hash_fails(v: Json, address: Json)
    requires
        v.spec_get("address"@) == Some(address),
        !(address.spec_get("hash"@) matches Some(Json::Str(_))),
    ensures
        user_op_spec(v) is Err,
        account_spec(v) is Err,
{
}

/// An operation whose `fee` is a string that is not a decimal `u64` does
/// not decode.
pub proof fn lemma_bad_fee_fails(v: Json, fee: String)
    requires
        v.spec_get("fee"@) == Some(Json::Str(fee)),
        u64_text(fee@) is None,
    ensures
        user_op_spec(v) is Err,
{
}

/// `"abc"` is not a decimal `u64`.
pub proof fn lemma_abc_is_not_u64()
    ensures
        u64_text("abc"@) is None,
{
    reveal_strlit("abc");
    assert("abc"@[0] == 'a');
}

/// An account whose `creation_timestamp` is `null` decodes, given a valid
/// address and gas, with an empty creation timestamp.
pub proof fn lemma_null_creation_timestamp(v: Json, address: Seq<char>, gas_used: u64)
    requires
        v is Object,
        address_hash_spec(v.spec_get("address"@)) == Ok::<Seq<char>, DecodeError>(address),
        v.spec_get("creation_timestamp"@) == Some(Json::Null),
        count_or_zero_spec(v.spec_get("gas_used"@)) == Ok::<u64, DecodeError>(gas_used),
    ensures
        account_spec(v) == Ok::<AccountView, DecodeError>(
            AccountView { address, creation_timestamp: Seq::empty(), gas_used },
        ),
{
}

} // verus!
