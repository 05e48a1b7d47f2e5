//! Button identifiers: a panel's correlation token followed by the decimal
//! text of a smoking type's identifier.

use crate::decimal::{
    append_decimal, decimal_int, decimal_nat, decimal_string, lemma_decimal_nat_distinct,
    lemma_parse_inverts_decimal, parse_i32, parse_i32_spec, DecodeError,
};
use vstd::prelude::*;
use vstd::string::*;

verus! {

/// The identifier of the button that a panel with `token` shows for `type_id`.
pub open spec fn button_id_spec(token: Seq<char>, type_id: int) -> Seq<char> {
    token + decimal_int(type_id)
}

/// Whether a listener with `token` reacts to a press of the button `custom_id`.
pub open spec fn belongs_to(custom_id: Seq<char>, token: Seq<char>) -> bool {
    token.is_prefix_of(custom_id)
}

/// What is left of `custom_id` once the token in front of it is taken away, once;
/// all of it where it does not begin with the token.
pub open spec fn strip_token(custom_id: Seq<char>, token: Seq<char>) -> Seq<char> {
    if token.is_prefix_of(custom_id) {
        custom_id.skip(token.len() as int)
    } else {
        custom_id
    }
}

/// The smoking type that the button `custom_id` of a panel with `token` stands for.
pub open spec fn extract_spec(custom_id: Seq<char>, token: Seq<char>) -> Result<i32, DecodeError> {
    parse_i32_spec(strip_token(custom_id, token))
}

/// Builds the identifier of the button for `type_id` on the panel with token `uuid`.
pub fn button_custom_id(uuid: &str, type_id: i32) -> (r: String)
    ensures
        r@ == button_id_spec(uuid@, type_id as int),
{
    let mut out = String::from_str(uuid);
    append_decimal(&mut out, type_id as i64);
    out
}

/// The listener's filter: whether `custom_id` begins with the token `uuid`.
pub fn has_token(custom_id: &str, uuid: &str) -> (r: bool)
    ensures
        r == belongs_to(custom_id@, uuid@),
{
    let n: usize = custom_id.unicode_len();
    let m: usize = uuid.unicode_len();
    if m > n {
        return false;
    }
    let mut i: usize = 0;
    while i < m
        invariant
            n == custom_id@.len(),
            m == uuid@.len(),
            m <= n,
            i <= m,
            forall|k: int| 0 <= k < i ==> custom_id@[k] == uuid@[k],
        decreases m - i,
    {
        if custom_id.get_char(i) != uuid.get_char(i) {
            proof {
                assert(custom_id@.subrange(0, m as int)[i as int] != uuid@[i as int]);
            }
            return false;
        }
        i = i + 1;
    }
    proof {
        assert(uuid@ =~= custom_id@.subrange(0, m as int));
    }
    true
}

/// Decodes the smoking type from a pressed button's identifier: the token
/// `uuid` in front is taken away and the rest is read as a 32-bit decimal
/// integer.
pub fn extract_cigarette_id(custom_id: &str, uuid: &str) -> (r: Result<i32, DecodeError>)
    ensures
        r == extract_spec(custom_id@, uuid@),
{
    if has_token(custom_id, uuid) {
        let n: usize = custom_id.unicode_len();
        let m: usize = uuid.unicode_len();
        let rest = custom_id.substring_char(m, n);
        proof {
            assert(rest@ =~= custom_id@.skip(m as int));
        }
        parse_i32(rest)
    } else {
        parse_i32(custom_id)
    }
}

/// A panel's own buttons pass its listener's filter.
pub proof fn lemma_own_button_belongs(token: Seq<char>, type_id: int)
    ensures
        belongs_to(button_id_spec(token, type_id), token),
{
    assert(token =~= button_id_spec(token, type_id).subrange(0, token.len() as int));
}

/// Decoding a button's identifier with the token it was built from gives the
/// smoking type back, whatever the token holds.
pub proof fn lemma_extract_inverts_button_id(token: Seq<char>, type_id: i32)
    ensures
        extract_spec(button_id_spec(token, type_id as int), token) == Ok::<i32, DecodeError>(
            type_id,
        ),
{
    lemma_own_button_belongs(token, type_id as int);
    lemma_parse_inverts_decimal(type_id);
    assert(button_id_spec(token, type_id as int).skip(token.len() as int) =~= decimal_int(
        type_id as int,
    ));
}

/// Two listeners whose tokens do not begin with one another never react to
/// the same button press.
pub proof fn lemma_listeners_disjoint(a: Seq<char>, b: Seq<char>, custom_id: Seq<char>)
    requires
        !a.is_prefix_of(b),
        !b.is_prefix_of(a),
    ensures
        !(belongs_to(custom_id, a) && belongs_to(custom_id, b)),
{
    if belongs_to(custom_id, a) && belongs_to(custom_id, b) {
        if a.len() <= b.len() {
            assert(a =~= b.subrange(0, a.len() as int)) by {
                assert forall|k: int| 0 <= k < a.len() implies a[k] == b[k] by {
                    assert(a[k] == custom_id.subrange(0, a.len() as int)[k]);
                    assert(b[k] == custom_id.subrange(0, b.len() as int)[k]);
                }
            }
        } else {
            assert(b =~= a.subrange(0, b.len() as int)) by {
                assert forall|k: int| 0 <= k < b.len() implies a[k] == b[k] by {
                    assert(a[k] == custom_id.subrange(0, a.len() as int)[k]);
                    assert(b[k] == custom_id.subrange(0, b.len() as int)[k]);
                }
            }
        }
    }
}

/// A button of one panel never reaches the listener of another panel whose
/// token differs from its own and neither begins the other.
pub proof fn lemma_no_cross_dispatch(a: Seq<char>, b: Seq<char>, type_id: int)
    requires
        !a.is_prefix_of(b),
        !b.is_prefix_of(a),
    ensures
        !belongs_to(button_id_spec(a, type_id), b),
{
    lemma_own_button_belongs(a, type_id);
    lemma_listeners_disjoint(a, b, button_id_spec(a, type_id));
}

/// Where one token begins another, every button of the longer token's panel
/// also reaches the listener of the shorter one.
pub proof fn lemma_prefix_tokens_collide(a: Seq<char>, b: Seq<char>, type_id: int)
    requires
        a.is_prefix_of(b),
    ensures
        belongs_to(button_id_spec(b, type_id), a),
{
    assert(a =~= button_id_spec(b, type_id).subrange(0, a.len() as int));
}

/// Distinct tokens of one length do not begin with one another.
pub proof fn lemma_equal_length_tokens(a: Seq<char>, b: Seq<char>)
    requires
        a.len() == b.len(),
        a != b,
    ensures
        !a.is_prefix_of(b),
        !b.is_prefix_of(a),
{
    assert(b.subrange(0, a.len() as int) =~= b);
    assert(a.subrange(0, b.len() as int) =~= a);
}

/// The correlation token of the invocation with the identifier
/// `invocation_id`: the identifier's decimal digits.
pub fn correlation_token(invocation_id: u64) -> (r: String)
    ensures
        r@ == decimal_nat(invocation_id as nat),
{
    decimal_string(invocation_id)
}

/// Invocations with different identifiers have different tokens, and tokens
/// of one length then never react to each other's buttons.
pub proof fn lemma_tokens_of_invocations(a: u64, b: u64, type_id: int)
    requires
        a != b,
    ensures
        decimal_nat(a as nat) != decimal_nat(b as nat),
        decimal_nat(a as nat).len() == decimal_nat(b as nat).len() ==> !belongs_to(
            button_id_spec(decimal_nat(a as nat), type_id),
            decimal_nat(b as nat),
        ),
{
    lemma_decimal_nat_distinct(a as nat, b as nat);
    if decimal_nat(a as nat).len() == decimal_nat(b as nat).len() {
        lemma_equal_length_tokens(decimal_nat(a as nat), decimal_nat(b as nat));
        lemma_no_cross_dispatch(decimal_nat(a as nat), decimal_nat(b as nat), type_id);
    }
}

} // verus!
