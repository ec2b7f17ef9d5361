use vstd::prelude::*;
use vstd::string::*;

verus! {

/// The index of the first `','` in `s`, or -1 when there is none.
pub open spec fn first_comma(s: Seq<char>) -> int
    decreases s.len(),
{
    if s.len() == 0 {
        -1
    } else if s[0] == ',' {
        0
    } else if first_comma(s.drop_first()) < 0 {
        -1
    } else {
        first_comma(s.drop_first()) + 1
    }
}

/// What is left of an encoded image once a `data:<mime>;base64,` prefix, that
/// is everything up to and including the first `','`, is taken off.
pub open spec fn payload_of(s: Seq<char>) -> Seq<char> {
    if first_comma(s) < 0 {
        s
    } else {
        s.skip(first_comma(s) + 1)
    }
}

proof fn lemma_first_comma(s: Seq<char>)
    ensures
        -1 <= first_comma(s) < s.len(),
        first_comma(s) >= 0 ==> s[first_comma(s)] == ',',
        forall|k: int|
            0 <= k < s.len() && (first_comma(s) < 0 || k < first_comma(s)) ==> s[k] != ',',
    decreases s.len(),
{
    if s.len() > 0 {
        lemma_first_comma(s.drop_first());
        assert forall|k: int|
            0 < k < s.len() && (first_comma(s) < 0 || k < first_comma(s)) implies s[k] != ',' by {
            assert(s[k] == s.drop_first()[k - 1]);
        }
    }
}

/// An encoding with at most one `','`, such as `data:<mime>;base64,<payload>`
/// with a base64 payload, keeps no `','` once its prefix is taken off, so no
/// part of the prefix is left.
pub proof fn lemma_payload_has_no_prefix(s: Seq<char>)
    requires
        forall|i: int, j: int| 0 <= i < s.len() && 0 <= j < s.len() && s[i] == ',' && s[j] == ','
            ==> i == j,
    ensures
        forall|k: int| 0 <= k < payload_of(s).len() ==> payload_of(s)[k] != ',',
{
    lemma_first_comma(s);
    let f = first_comma(s);
    if f >= 0 {
        assert forall|k: int| 0 <= k < payload_of(s).len() implies payload_of(s)[k] != ',' by {
            assert(payload_of(s)[k] == s[f + 1 + k]);
        }
    }
}

/// The base64 payload of an encoded image, without its data-URI prefix; an
/// encoding without a `','` is returned whole.
pub fn base64_payload(encoded: &str) -> (r: String)
    ensures
        r@ == payload_of(encoded@),
{
    proof {
        lemma_first_comma(encoded@);
    }
    let n = encoded.unicode_len();
    let mut i: usize = 0;
    while i < n
        invariant
            n == encoded@.len(),
            i <= n,
            forall|k: int| 0 <= k < i ==> encoded@[k] != ',',
        decreases n - i,
    {
        if encoded.get_char(i) == ',' {
            proof {
                lemma_first_comma(encoded@);
                let f = first_comma(encoded@);
                if 0 <= f < i {
                    assert(encoded@[f] != ',');
                }
                assert(encoded@[i as int] == ',');
            }
            return String::from_str(encoded.substring_char(i + 1, n));
        }
        i += 1;
    }
    assert(first_comma(encoded@) < 0);
    String::from_str(encoded.substring_char(0, n))
}

} // verus!
