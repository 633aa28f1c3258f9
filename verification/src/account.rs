//! The in-memory snapshot of one remote account.

use vstd::prelude::*;

verus! {

/// One organization as the remote service reports it: a name (empty when
/// the source record lacked one) and the raw text of its last-activity
/// timestamp, absent when the source record carried none.
#[derive(Debug, PartialEq, Eq)]
pub struct Account {
    pub name: String,
    pub last_activity_at: Option<String>,
}

/// The mathematical value of an [`Account`]: both fields as character
/// sequences.
pub struct AccountView {
    pub name: Seq<char>,
    pub last_activity_at: Option<Seq<char>>,
}

impl View for Account {
    type V = AccountView;

    open spec fn view(&self) -> AccountView {
        AccountView {
            name: self.name@,
            last_activity_at: match self.last_activity_at {
                Some(s) => Some(s@),
                None => None,
            },
        }
    }
}

impl Clone for Account {
    fn clone(&self) -> (r: Self)
        ensures
            r@ == self@,
    {
        Account {
            name: self.name.clone(),
            last_activity_at: match &self.last_activity_at {
                Some(s) => Some(s.clone()),
                None => None,
            },
        }
    }
}

/// The views of a sequence of accounts.
pub open spec fn views(s: Seq<Account>) -> Seq<AccountView> {
    s.map_values(|a: Account| a@)
}

/// The timestamp field as a report row carries it: the raw text, or the
/// empty field where the record had none.
pub open spec fn activity_field(a: AccountView) -> Seq<char> {
    match a.last_activity_at {
        Some(s) => s,
        None => Seq::empty(),
    }
}

/// Builds the snapshot of one record from its two extracted fields.  A
/// record without a name is kept under the empty name; an absent
/// timestamp stays absent, for the filter to treat as not old.
pub fn account_from_fields(name: Option<String>, last_activity_at: Option<String>) -> (a: Account)
    ensures
        a@.name == match name {
            Some(n) => n@,
            None => Seq::<char>::empty(),
        },
        a@.last_activity_at == match last_activity_at {
            Some(s) => Some(s@),
            None => None::<Seq<char>>,
        },
{
    let name = match name {
        Some(n) => n,
        None => String::new(),
    };
    Account { name, last_activity_at }
}

} // verus!
