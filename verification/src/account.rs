//! NEAR account identifiers.

use vstd::prelude::*;

verus! {

/// A separator character of an account identifier.
pub open spec fn is_separator(c: char) -> bool {
    c == '-' || c == '_' || c == '.'
}

/// A character allowed in an account identifier: lower-case ASCII letters,
/// digits and separators.
pub open spec fn is_account_char(c: char) -> bool {
    ('a' <= c && c <= 'z') || ('0' <= c && c <= '9') || is_separator(c)
}

/// NEAR's rule for account identifiers: 2 to 64 allowed characters, not
/// starting or ending with a separator, with no two separators in a row.
pub open spec fn valid_account_id(s: Seq<char>) -> bool {
    &&& 2 <= s.len() <= 64
    &&& forall|i: int| 0 <= i < s.len() ==> #[trigger] is_account_char(s[i])
    &&& !is_separator(s[0])
    &&& !is_separator(s[s.len() - 1])
    &&& forall|i: int| 0 <= i < s.len() - 1 ==> !(#[trigger] is_separator(s[i]) && is_separator(s[i + 1]))
}

/// Calls `near_sdk::env::is_valid_account_id` on the UTF-8 bytes of `text`.
/// That function checks that the byte length lies in 2..=64, that every byte is
/// a lower-case ASCII letter, a digit or one of `-`, `_`, `.`, and that no
/// separator starts or ends the text or follows another separator; its result
/// is claimed to be `valid_account_id` of the characters (a non-ASCII
/// character fails the byte check and the character check alike).
#[verifier::external_body]
fn near_is_valid_account_id(text: &str) -> (valid: bool)
    ensures
        valid == valid_account_id(text@),
{
    near_sdk::env::is_valid_account_id(text.as_bytes())
}

/// A validated NEAR account identifier.
#[derive(Debug, PartialEq, Eq)]
pub struct AccountId {
    id: String,
}

impl View for AccountId {
    type V = Seq<char>;

    closed spec fn view(&self) -> Seq<char> {
        self.id@
    }
}

impl AccountId {
    #[verifier::type_invariant]
    closed spec fn inv(self) -> bool {
        valid_account_id(self.id@)
    }

    /// Parses an account identifier; `None` when the text breaks NEAR's rule.
    pub fn parse(text: &str) -> (r: Option<AccountId>)
        ensures
            r is Some <==> valid_account_id(text@),
            r matches Some(a) ==> a@ == text@,
    {
        if near_is_valid_account_id(text) {
            Some(AccountId { id: text.to_owned() })
        } else {
            None
        }
    }

    /// The identifier's text.
    pub fn as_str(&self) -> (s: &str)
        ensures
            s@ == self@,
            valid_account_id(self@),
    {
        proof {
            use_type_invariant(self);
        }
        self.id.as_str()
    }

    /// The identifier's text as an owned string.
    pub fn text(&self) -> (s: &String)
        ensures
            s@ == self@,
    {
        &self.id
    }

    /// Whether two identifiers are the same account.
    pub fn same_as(&self, other: &AccountId) -> (r: bool)
        ensures
            r == (self@ == other@),
    {
        self.id == other.id
    }
}

impl Clone for AccountId {
    fn clone(&self) -> (r: Self)
        ensures
            r@ == self@,
    {
        proof {
            use_type_invariant(self);
        }
        AccountId { id: self.id.clone() }
    }
}

} // verus!
