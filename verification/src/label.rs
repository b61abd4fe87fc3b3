//! The labels that invoices are created under. A label tells which address an
//! invoice was made for.

use vstd::prelude::*;
use vstd::string::*;

use crate::event::is_hex;
use crate::text::{lemma_split_first, lemma_split_single, split, str_view};
use crate::user::{canonical_user, is_upper, user_char};

verus! {

/// A random UUID as it is printed: lowercase hexadecimal digits in groups of 8,
/// 4, 4, 4 and 12, joined by hyphens, with the version and the variant in their
/// places.
pub open spec fn is_uuid_v4(s: Seq<char>) -> bool {
    &&& s.len() == 36
    &&& forall|i: int|
        0 <= i < s.len() ==> if i == 8 || i == 13 || i == 18 || i == 23 {
            #[trigger] s[i] == '-'
        } else {
            is_hex(s[i]) && !is_upper(s[i])
        }
    &&& s[14] == '4'
    &&& s[19] == '8' || s[19] == '9' || s[19] == 'a' || s[19] == 'b'
}

/// `uuid::Uuid::new_v4`, as it is printed. Which of the random UUIDs comes is
/// left to chance.
#[verifier::external_body]
fn new_uuid() -> (r: String)
    ensures
        is_uuid_v4(r@),
{
    uuid::Uuid::new_v4().to_string()
}

/// What stands for the user in the label of an invoice.
pub open spec fn label_user(user: Option<Seq<char>>) -> Seq<char> {
    match user {
        Some(user) => user,
        None => "__direct__"@,
    }
}

/// The label of an invoice for `user`, or for no user in particular, that is
/// told apart from others by `uuid`.
pub open spec fn label_text(user: Option<Seq<char>>, uuid: Seq<char>) -> Seq<char> {
    "clnaddress:v1:"@ + label_user(user) + ":"@ + uuid
}

/// The label of an invoice for `user`, or for no user in particular, that is
/// told apart from others by `uuid`.
pub fn invoice_label_with(user: Option<&str>, uuid: &str) -> (r: String)
    ensures
        r@ == label_text(str_view(user), uuid@),
{
    let mut label = "clnaddress:v1:".to_owned();
    label.append(user.unwrap_or("__direct__"));
    label.append(":");
    label.append(uuid);
    label
}

/// A label for a new invoice for `user`, or for no user in particular.
pub fn invoice_label(user: Option<&str>) -> (r: String)
    ensures
        exists|uuid: Seq<char>| #[trigger]
            is_uuid_v4(uuid) && r@ == label_text(str_view(user), uuid),
{
    let uuid = new_uuid();
    invoice_label_with(user, uuid.as_str())
}

/// What stands for no user in particular is not the name of a user.
pub proof fn law_direct_is_not_a_user()
    ensures
        !canonical_user(label_user(None)),
{
    reveal_strlit("__direct__");
}

/// A label is of four parts between colons: the prefix, its version, the user,
/// and the UUID.
pub proof fn law_label_has_four_parts(user: Option<Seq<char>>, uuid: Seq<char>)
    requires
        user matches Some(user) ==> canonical_user(user),
        is_uuid_v4(uuid),
    ensures
        split(label_text(user, uuid), ':') == seq!["clnaddress"@, "v1"@, label_user(user), uuid],
{
    reveal_strlit("clnaddress");
    reveal_strlit("v1");
    reveal_strlit(":");
    reveal_strlit("clnaddress:v1:");
    reveal_strlit("__direct__");
    let shown = label_user(user);
    assert(!shown.contains(':')) by {
        if user is Some {
            assert forall|i: int| 0 <= i < shown.len() implies shown[i] != ':' by {
                assert(user_char(shown[i]));
            }
        }
    }
    assert(!uuid.contains(':')) by {
        assert forall|i: int| 0 <= i < uuid.len() implies uuid[i] != ':' by {}
    }
    let colon = seq![':'];
    let third = shown + colon + uuid;
    let second = "v1"@ + colon + third;
    assert(label_text(user, uuid) =~= "clnaddress"@ + colon + second);
    lemma_split_single(uuid, ':');
    lemma_split_first(shown, ':', uuid);
    lemma_split_first("v1"@, ':', third);
    lemma_split_first("clnaddress"@, ':', second);
    assert(split(label_text(user, uuid), ':') =~= seq!["clnaddress"@, "v1"@, shown, uuid]);
}

/// A label tells which user an invoice is for, and which UUID it was given: no
/// two users share a label, nor does a user with the invoices for no user in
/// particular.
pub proof fn law_label_is_attributable(
    user: Option<Seq<char>>,
    uuid: Seq<char>,
    other_user: Option<Seq<char>>,
    other_uuid: Seq<char>,
)
    requires
        user matches Some(user) ==> canonical_user(user),
        other_user matches Some(user) ==> canonical_user(user),
        is_uuid_v4(uuid),
        is_uuid_v4(other_uuid),
        label_text(user, uuid) == label_text(other_user, other_uuid),
    ensures
        user == other_user,
        uuid == other_uuid,
{
    law_direct_is_not_a_user();
    law_label_has_four_parts(user, uuid);
    law_label_has_four_parts(other_user, other_uuid);
    let parts = seq!["clnaddress"@, "v1"@, label_user(user), uuid];
    let other_parts = seq!["clnaddress"@, "v1"@, label_user(other_user), other_uuid];
    assert(parts == other_parts);
    assert(parts[2] == other_parts[2]);
    assert(parts[3] == other_parts[3]);
}

/// The third part of a label is the name of the user as it is, or `__direct__` for
/// no user in particular, and the fourth is the UUID as it is.
pub proof fn law_label_shows_the_user(user: Seq<char>, uuid: Seq<char>)
    requires
        canonical_user(user),
        is_uuid_v4(uuid),
    ensures
        split(label_text(Some(user), uuid), ':') == seq!["clnaddress"@, "v1"@, user, uuid],
        split(label_text(None, uuid), ':') == seq!["clnaddress"@, "v1"@, "__direct__"@, uuid],
        label_text(Some(user), uuid) == "clnaddress:v1:"@ + user + ":"@ + uuid,
        label_text(None, uuid) == "clnaddress:v1:__direct__:"@ + uuid,
{
    law_label_has_four_parts(Some(user), uuid);
    law_label_has_four_parts(None, uuid);
    reveal_strlit("clnaddress:v1:__direct__:");
    reveal_strlit("clnaddress:v1:");
    reveal_strlit("__direct__");
    reveal_strlit(":");
    assert(label_text(None, uuid) =~= "clnaddress:v1:__direct__:"@ + uuid);
}

} // verus!
