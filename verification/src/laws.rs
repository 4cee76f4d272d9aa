//! What holds of the library as a whole, stated and proved once.

use vstd::prelude::*;
use crate::data_model::SpecNode;
use crate::decode::{SchemaError, spec_decode_nodes};
use crate::json::{Json, spec_obj_get};
use crate::numeric::{
    all_digit_chars, dec_digits_of, dec_value, digit_glyph, digit_value, is_digit_char,
    spec_parse_bool, spec_parse_u64, spec_parse_unsigned,
};
use crate::report::{
    spec_channel_section, spec_external_memory_section, spec_global_memory_section,
    spec_local_memory_section, spec_loop_section,
};
use crate::data_model::Profile;

verus! {

/// A node collection written as the empty-string sentinel decodes to the
/// empty collection, and a non-empty string there is a schema error.
pub proof fn lemma_sentinel_coercion(v: Json, fields: Vec<(String, Json)>, s: String)
    requires
        v == Json::Object(fields),
        spec_obj_get(fields@, "nodes"@) == Some(Json::Text(s)),
    ensures
        s@.len() == 0 ==> spec_decode_nodes(v) == Ok::<Seq<SpecNode>, SchemaError>(Seq::empty()),
        s@.len() > 0 ==> spec_decode_nodes(v) == Err::<Seq<SpecNode>, SchemaError>(
            SchemaError::NonEmptyString,
        ),
{
}

proof fn lemma_dec_digits_props(n: nat)
    ensures
        dec_digits_of(n).len() >= 1,
        all_digit_chars(dec_digits_of(n)),
        dec_value(dec_digits_of(n)) == n,
    decreases n,
{
    if n < 10 {
        assert(digit_value(digit_glyph(n)) == n);
        assert(seq![digit_glyph(n)].drop_last() =~= Seq::<char>::empty());
        assert(dec_value(Seq::<char>::empty()) == 0);
        assert(dec_value(dec_digits_of(n)) == 0 * 10 + digit_value(digit_glyph(n)));
        assert(all_digit_chars(dec_digits_of(n)));
    } else {
        lemma_dec_digits_props(n / 10);
        assert(dec_digits_of(n).drop_last() =~= dec_digits_of(n / 10));
        assert(digit_value(digit_glyph(n % 10)) == n % 10);
        assert(dec_digits_of(n).last() == digit_glyph(n % 10));
        assert(dec_value(dec_digits_of(n)) == dec_value(dec_digits_of(n / 10)) * 10 + digit_value(
            digit_glyph(n % 10),
        ));
        assert(n / 10 * 10 + n % 10 == n);
        assert forall|i: int| 0 <= i < dec_digits_of(n).len() implies is_digit_char(
            dec_digits_of(n)[i],
        ) by {
            if i < dec_digits_of(n / 10).len() {
                assert(dec_digits_of(n)[i] == dec_digits_of(n / 10)[i]);
            }
        }
    }
}

/// Every string-encoded integer round-trips: a value written in decimal
/// decodes back to itself.
pub proof fn lemma_numeric_round_trip(n: u64)
    ensures
        spec_parse_u64(dec_digits_of(n as nat)) == Some(n),
{
    lemma_dec_digits_props(n as nat);
    let s = dec_digits_of(n as nat);
    assert(is_digit_char(s[0]));
    assert(s[0] != '+');
    assert(spec_parse_unsigned(s) == Some(n as nat));
}

/// The two boolean encodings decode to their values.
pub proof fn lemma_bool_round_trip()
    ensures
        spec_parse_bool("true"@) == Some(true),
        spec_parse_bool("false"@) == Some(false),
{
    reveal_strlit("true");
    reveal_strlit("false");
    assert("true"@.len() == 4);
    assert("false"@.len() == 5);
    assert("false"@ != "true"@);
}

/// A string with a non-digit character in it (other than a leading sign)
/// never decodes as an unsigned integer.
pub proof fn lemma_non_numeric_fails(s: Seq<char>, i: int)
    requires
        0 <= i < s.len(),
        !is_digit_char(s[i]),
        i > 0 || s[i] != '+',
    ensures
        spec_parse_u64(s) is None,
{
    if s.len() > 0 && s[0] == '+' {
        assert(s.drop_first()[i - 1] == s[i]);
        assert(!all_digit_chars(s.drop_first()));
    } else {
        assert(!all_digit_chars(s));
    }
}

/// Re-running grouping and aggregation on the same parsed tree with the
/// same filter yields the identical sections: the whole report is a
/// function of tree and options alone.
pub proof fn lemma_grouping_stable(
    a: Profile,
    b: Profile,
    allow_a: Option<Vec<String>>,
    allow_b: Option<Vec<String>>,
)
    requires
        a == b,
        allow_a == allow_b,
    ensures
        spec_global_memory_section(a.kernels.nodes@, allow_a) == spec_global_memory_section(
            b.kernels.nodes@,
            allow_b,
        ),
        spec_local_memory_section(a.kernels.nodes@, allow_a) == spec_local_memory_section(
            b.kernels.nodes@,
            allow_b,
        ),
        spec_channel_section(a.kernels.nodes@, allow_a) == spec_channel_section(
            b.kernels.nodes@,
            allow_b,
        ),
        spec_loop_section(a.kernels.nodes@, allow_a) == spec_loop_section(
            b.kernels.nodes@,
            allow_b,
        ),
        spec_external_memory_section(a.kernels.nodes@, allow_a) == spec_external_memory_section(
            b.kernels.nodes@,
            allow_b,
        ),
{
}

} // verus!
