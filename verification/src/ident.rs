//! Menu identifiers: a base string, an underscore, and a monotonically
//! increasing counter in decimal. The counter can be read back from the
//! identifier, which is what makes identifiers from different allocations
//! provably distinct.

use vstd::prelude::*;

use crate::numeral::{all_digits, dec, digits_val, is_digit, lemma_dec_shape, lemma_dec_val};
use crate::scan::{last_occurrence, lemma_last_occurrence_at};

verus! {

/// A freshly allocated identifier: the base, `_`, and the counter in decimal.
pub open spec fn uid_spec(base: Seq<char>, n: nat) -> Seq<char> {
    base + "_"@ + dec(n)
}

/// The counter an identifier records: the value of the all-digit run after
/// its last underscore, or -1 where it has no such suffix.
pub open spec fn counter_val(id: Seq<char>) -> int {
    let p = last_occurrence(id, '_');
    if p >= 0 && id.skip(p + 1).len() > 0 && all_digits(id.skip(p + 1)) {
        digits_val(id.skip(p + 1)) as int
    } else {
        -1
    }
}

/// A digit is never an underscore.
proof fn lemma_digit_not_underscore(c: char)
    requires
        is_digit(c),
    ensures
        c != '_',
{
    assert('_' as u32 == 95);
}

/// An identifier records exactly the counter it was allocated with.
pub proof fn lemma_uid_counter(base: Seq<char>, n: nat)
    ensures
        counter_val(uid_spec(base, n)) == n,
{
    reveal_strlit("_");
    let id = uid_spec(base, n);
    let b = base.len() as int;
    lemma_dec_shape(n);
    assert(id[b] == '_');
    assert forall|j: int| b < j < id.len() implies id[j] != '_' by {
        assert(id[j] == dec(n)[j - b - 1]);
        assert(is_digit(dec(n)[j - b - 1]));
        lemma_digit_not_underscore(id[j]);
    }
    lemma_last_occurrence_at(id, '_', b);
    assert(id.skip(b + 1) =~= dec(n));
    lemma_dec_val(n);
}

/// Identifiers allocated with different counters differ, whatever their
/// bases: the counter can be read back, and it disagrees.
pub proof fn lemma_uid_unique(b1: Seq<char>, n1: nat, b2: Seq<char>, n2: nat)
    requires
        n1 != n2,
    ensures
        uid_spec(b1, n1) != uid_spec(b2, n2),
{
    lemma_uid_counter(b1, n1);
    lemma_uid_counter(b2, n2);
}

} // verus!
