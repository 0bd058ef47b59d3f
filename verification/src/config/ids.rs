//! The two identifier newtypes of the configuration, [`ServiceId`] and
//! [`ProfileName`], which share one character class: `[a-z0-9-]{1,48}`.

use vstd::prelude::*;
use vstd::string::StringExecFns;

use crate::text::{decimal, decimal_string, join3};

verus! {

/// The longest identifier accepted, in characters.
pub const MAX_ID_LEN: usize = 48;

/// `c` belongs to the identifier character class `[a-z0-9-]`.
pub open spec fn is_id_char(c: char) -> bool {
    ('a' <= c && c <= 'z') || ('0' <= c && c <= '9') || c == '-'
}

/// `s` matches `[a-z0-9-]{1,48}`.
pub open spec fn is_valid_id(s: Seq<char>) -> bool {
    &&& 1 <= s.len() <= MAX_ID_LEN
    &&& forall|i: int| 0 <= i < s.len() ==> is_id_char(#[trigger] s[i])
}

/// The reason [`validate_id_chars`] gives for rejecting `s`, or `None`
/// when `s` is a valid identifier. A length outside `1..=48` is reported
/// before a bad character.
pub open spec fn id_error(s: Seq<char>) -> Option<Seq<char>> {
    if s.len() == 0 || s.len() > MAX_ID_LEN {
        Some("must match [a-z0-9-]{1,48} (length "@ + decimal(s.len()) + " is out of range)"@)
    } else if !is_valid_id(s) {
        Some("must match [a-z0-9-]{1,48} (found `"@ + s + "`)"@)
    } else {
        None
    }
}

/// Whether `c` is in `[a-z0-9-]`.
pub fn id_char(c: char) -> (b: bool)
    ensures
        b == is_id_char(c),
{
    ('a' <= c && c <= 'z') || ('0' <= c && c <= '9') || c == '-'
}

/// Checks `value` against `[a-z0-9-]{1,48}`, explaining a rejection.
pub fn validate_id_chars(value: &str) -> (r: Result<(), String>)
    ensures
        r is Ok <==> id_error(value@) is None,
        r matches Err(msg) ==> id_error(value@) == Some(msg@),
{
    let len = value.unicode_len();
    if len == 0 || len > MAX_ID_LEN {
        let digits = decimal_string(len as u64);
        return Err(join3("must match [a-z0-9-]{1,48} (length ", digits.as_str(), " is out of range)"));
    }
    let chars = crate::text::to_chars(value);
    let mut i: usize = 0;
    while i < chars.len()
        invariant
            chars@ == value@,
            1 <= value@.len() <= MAX_ID_LEN,
            i <= chars.len(),
            forall|j: int| 0 <= j < i ==> is_id_char(#[trigger] chars@[j]),
        decreases chars.len() - i,
    {
        if !id_char(chars[i]) {
            assert(!is_id_char(value@[i as int]));
            return Err(join3("must match [a-z0-9-]{1,48} (found `", value, "`)"));
        }
        i = i + 1;
    }
    Ok(())
}

/// A service identifier: `[a-z0-9-]{1,48}`, unique within a configuration.
#[derive(Debug, Hash, PartialOrd, Ord)]
pub struct ServiceId {
    value: String,
}

impl ServiceId {
    #[verifier::type_invariant]
    spec fn well_formed(self) -> bool {
        is_valid_id(self.value@)
    }

    /// Validates `value` against the identifier character class.
    pub fn new(value: &str) -> (r: Result<Self, String>)
        ensures
            r is Ok <==> is_valid_id(value@),
            r matches Ok(id) ==> id@ == value@,
            r matches Err(msg) ==> id_error(value@) == Some(msg@),
    {
        match validate_id_chars(value) {
            Ok(()) => Ok(ServiceId { value: String::from_str(value) }),
            Err(msg) => Err(msg),
        }
    }

    /// The identifier's text; also states that it is well formed.
    pub fn as_str(&self) -> (s: &str)
        ensures
            s@ == self@,
            is_valid_id(self@),
    {
        proof {
            use_type_invariant(self);
        }
        self.value.as_str()
    }
}

impl View for ServiceId {
    type V = Seq<char>;

    closed spec fn view(&self) -> Seq<char> {
        self.value@
    }
}

impl Clone for ServiceId {
    fn clone(&self) -> (r: Self)
        ensures
            r@ == self@,
    {
        proof {
            use_type_invariant(self);
        }
        ServiceId { value: self.value.clone() }
    }
}

impl PartialEq for ServiceId {
    fn eq(&self, other: &Self) -> (r: bool) {
        self.value == other.value
    }
}

impl Eq for ServiceId {}

impl vstd::std_specs::cmp::PartialEqSpecImpl for ServiceId {
    open spec fn obeys_eq_spec() -> bool {
        true
    }

    open spec fn eq_spec(&self, other: &Self) -> bool {
        self@ == other@
    }
}

/// A profile name: `"default"`, `"isolated"`, or a named profile, in the
/// identifier character class.
#[derive(Debug, Hash, PartialOrd, Ord)]
pub struct ProfileName {
    value: String,
}

impl ProfileName {
    #[verifier::type_invariant]
    spec fn well_formed(self) -> bool {
        is_valid_id(self.value@)
    }

    /// Validates `value` against the identifier character class.
    pub fn new(value: &str) -> (r: Result<Self, String>)
        ensures
            r is Ok <==> is_valid_id(value@),
            r matches Ok(name) ==> name@ == value@,
            r matches Err(msg) ==> id_error(value@) == Some(msg@),
    {
        match validate_id_chars(value) {
            Ok(()) => Ok(ProfileName { value: String::from_str(value) }),
            Err(msg) => Err(msg),
        }
    }

    /// The name's text; also states that it is well formed.
    pub fn as_str(&self) -> (s: &str)
        ensures
            s@ == self@,
            is_valid_id(self@),
    {
        proof {
            use_type_invariant(self);
        }
        self.value.as_str()
    }
}

impl View for ProfileName {
    type V = Seq<char>;

    closed spec fn view(&self) -> Seq<char> {
        self.value@
    }
}

impl Clone for ProfileName {
    fn clone(&self) -> (r: Self)
        ensures
            r@ == self@,
    {
        proof {
            use_type_invariant(self);
        }
        ProfileName { value: self.value.clone() }
    }
}

impl PartialEq for ProfileName {
    fn eq(&self, other: &Self) -> (r: bool) {
        self.value == other.value
    }
}

impl Eq for ProfileName {}

impl vstd::std_specs::cmp::PartialEqSpecImpl for ProfileName {
    open spec fn obeys_eq_spec() -> bool {
        true
    }

    open spec fn eq_spec(&self, other: &Self) -> bool {
        self@ == other@
    }
}

} // verus!
