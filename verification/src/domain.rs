//! A subscriber's address.

use vstd::prelude::*;
use vstd::string::*;

verus! {

/// Whether `c` is a blank: a space, a tab or a line break.
pub open spec fn is_blank(c: char) -> bool {
    c == ' ' || c == '\t' || c == '\n' || c == '\r'
}

/// How many `@` signs `s` holds.
pub open spec fn at_signs(s: Seq<char>) -> nat
    decreases s.len(),
{
    if s.len() == 0 {
        0
    } else {
        at_signs(s.drop_last()) + if s.last() == '@' { 1nat } else { 0nat }
    }
}

/// Whether `s` holds no blank.
pub open spec fn unbroken(s: Seq<char>) -> bool {
    forall|i: int| 0 <= i < s.len() ==> !is_blank(#[trigger] s[i])
}

/// Whether `s` has the shape of an address: a local part and a domain, both
/// non-empty, with the one `@` sign of `s` between them, and no blank
/// anywhere.
pub open spec fn well_formed_address(s: Seq<char>) -> bool {
    &&& s.len() >= 3
    &&& s.first() != '@'
    &&& s.last() != '@'
    &&& at_signs(s) == 1
    &&& unbroken(s)
}

/// What is said of a text that is no address.
pub open spec fn address_error_text(s: Seq<char>) -> Seq<char> {
    s + " is not a valid subscriber email."@
}

/// Whether `s` has the shape of an address.
pub fn has_address_shape(s: &str) -> (shaped: bool)
    ensures
        shaped == well_formed_address(s@),
{
    let length: usize = s.unicode_len();
    let mut signs: usize = 0;
    let mut blanks: bool = false;
    let mut i: usize = 0;
    while i < length
        invariant
            i <= length,
            length == s@.len(),
            signs == at_signs(s@.take(i as int)),
            signs <= i,
            blanks == !unbroken(s@.take(i as int)),
        decreases length - i,
    {
        let c = s.get_char(i);
        proof {
            assert(s@.take(i + 1).drop_last() =~= s@.take(i as int));
            assert(s@.take(i + 1).last() == s@[i as int]);
            if is_blank(c) {
                assert(is_blank(s@.take(i + 1)[i as int]));
            } else if unbroken(s@.take(i as int)) {
                assert forall|k: int| 0 <= k < i + 1 implies !is_blank(
                    #[trigger] s@.take(i + 1)[k],
                ) by {
                    if k < i {
                        assert(s@.take(i + 1)[k] == s@.take(i as int)[k]);
                    }
                }
            } else {
                let k = choose|k: int| 0 <= k < i && is_blank(#[trigger] s@.take(i as int)[k]);
                assert(is_blank(s@.take(i + 1)[k]));
            }
        }
        if c == '@' {
            signs += 1;
        }
        if c == ' ' || c == '\t' || c == '\n' || c == '\r' {
            blanks = true;
        }
        i += 1;
    }
    assert(s@.take(length as int) =~= s@);
    length >= 3 && signs == 1 && !blanks && s.get_char(0) != '@' && s.get_char(length - 1) != '@'
}

/// An address that has the shape of one.
#[derive(Debug)]
pub struct SubscriberEmail(String);

impl View for SubscriberEmail {
    type V = Seq<char>;

    closed spec fn view(&self) -> Seq<char> {
        self.0@
    }
}

impl SubscriberEmail {
    /// Every address that was built by `parse` is well formed.
    pub open spec fn wf(&self) -> bool {
        well_formed_address(self@)
    }

    /// Takes `s` as an address where it has the shape of one, and says that
    /// it is none otherwise.
    pub fn parse(s: String) -> (r: Result<SubscriberEmail, String>)
        ensures
            match r {
                Ok(address) => well_formed_address(s@) && address@ == s@,
                Err(text) => !well_formed_address(s@) && text@ == address_error_text(s@),
            },
    {
        if has_address_shape(s.as_str()) {
            Ok(SubscriberEmail(s))
        } else {
            Err(s.concat(" is not a valid subscriber email."))
        }
    }

    /// The address's characters.
    pub fn as_ref(&self) -> (s: &str)
        ensures
            s@ == self@,
    {
        self.0.as_str()
    }
}

} // verus!
