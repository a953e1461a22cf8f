use vstd::prelude::*;

verus! {

// The OS hands device paths and product names back as buffers of 16-bit
// code units, zero-filled past the text. Decoding takes the prefix before
// the first NUL and turns each unit into the character with that value;
// a unit in the surrogate range is an encoding error, not undefined
// behavior. Characters outside the basic plane would arrive as surrogate
// pairs and are therefore rejected rather than misread.

/// A 16-bit unit that is itself a Unicode scalar value (not a surrogate).
pub open spec fn decodable_unit(u: u16) -> bool {
    !(0xD800 <= u < 0xE000)
}

/// Length of the prefix before the first NUL unit.
pub open spec fn prefix_len(units: Seq<u16>) -> nat
    decreases units.len(),
{
    if units.len() == 0 || units[0] == 0 {
        0
    } else {
        (1 + prefix_len(units.drop_first())) as nat
    }
}

/// The text prefix: everything before the first NUL unit.
pub open spec fn wide_prefix(units: Seq<u16>) -> Seq<u16> {
    units.subrange(0, prefix_len(units) as int)
}

/// Every unit of the text prefix is a Unicode scalar value.
pub open spec fn prefix_decodable(units: Seq<u16>) -> bool {
    forall|j: int| 0 <= j < prefix_len(units) ==> decodable_unit(#[trigger] units[j])
}

/// `s` spells `units` character by character: same length, and each
/// character carries the value of its unit.
pub open spec fn decodes_to(units: Seq<u16>, s: Seq<char>) -> bool {
    s.len() == units.len() && forall|i: int|
        0 <= i < units.len() ==> (#[trigger] s[i]) as u32 == units[i] as u32
}

/// `n` is where the text prefix of `units` ends: no NUL before it, and a
/// NUL (or the buffer's end) at it.
pub open spec fn is_prefix_end(units: Seq<u16>, n: int) -> bool {
    &&& 0 <= n <= units.len()
    &&& forall|j: int| 0 <= j < n ==> (#[trigger] units[j]) != 0
    &&& (n == units.len() || units[n] == 0)
}

proof fn lemma_prefix_end_is_prefix_len(units: Seq<u16>, n: int)
    requires
        is_prefix_end(units, n),
    ensures
        n == prefix_len(units),
    decreases units.len(),
{
    if units.len() == 0 || units[0] == 0 {
        assert(n == 0) by {
            if n > 0 {
                assert(units[0] != 0);
            }
        }
    } else {
        assert(n >= 1) by {
            if n == 0 {
                assert(units[0] == 0);
            }
        }
        let rest = units.drop_first();
        assert(is_prefix_end(rest, n - 1)) by {
            assert(forall|j: int| 0 <= j < n - 1 ==> (#[trigger] rest[j]) == units[j + 1]);
        }
        lemma_prefix_end_is_prefix_len(rest, n - 1);
    }
}

/// Relies on `char::from_u32`: `Some` exactly for Unicode scalar values
/// (for a 16-bit input, everything but the surrogate range), and the
/// character returned carries the given value.
#[verifier::external_body]
fn char_from_unit(u: u16) -> (r: Option<char>)
    ensures
        r is Some <==> decodable_unit(u),
        r matches Some(c) ==> c as u32 == u as u32,
{
    char::from_u32(u as u32)
}

/// Relies on `String::push`: appends exactly the one character.
#[verifier::external_body]
fn push_char(s: &mut String, c: char)
    ensures
        final(s)@ == old(s)@.push(c),
{
    s.push(c);
}

/// Decodes the text prefix of a zero-filled buffer of 16-bit units: the
/// units before the first NUL, each taken as the character of its value.
/// Fails exactly when that prefix holds a surrogate unit.
pub fn decode_wide(units: &Vec<u16>) -> (r: Option<String>)
    ensures
        match r {
            Some(s) => prefix_decodable(units@) && decodes_to(wide_prefix(units@), s@),
            None => !prefix_decodable(units@),
        },
{
    let mut out = String::new();
    let mut i: usize = 0;
    loop
        invariant
            0 <= i <= units@.len(),
            out@.len() == i,
            forall|j: int| 0 <= j < i ==> (#[trigger] units@[j]) != 0,
            forall|j: int| 0 <= j < i ==> decodable_unit(#[trigger] units@[j]),
            forall|j: int| 0 <= j < i ==> (#[trigger] out@[j]) as u32 == units@[j] as u32,
        decreases units@.len() - i,
    {
        if i == units.len() || units[i] == 0 {
            proof {
                lemma_prefix_end_is_prefix_len(units@, i as int);
                assert(decodes_to(wide_prefix(units@), out@)) by {
                    assert(forall|j: int|
                        0 <= j < i ==> (#[trigger] wide_prefix(units@)[j]) == units@[j]);
                }
            }
            return Some(out);
        }
        match char_from_unit(units[i]) {
            Some(c) => {
                push_char(&mut out, c);
            },
            None => {
                proof {
                    // A surrogate stands at `i`, before any NUL, so the
                    // text prefix reaches past it.
                    lemma_prefix_len_grows(units@, i as int);
                }
                return None;
            },
        }
        i = i + 1;
    }
}

/// The text prefix ends within the buffer.
pub proof fn lemma_prefix_len_le(units: Seq<u16>)
    ensures
        prefix_len(units) <= units.len(),
    decreases units.len(),
{
    if units.len() > 0 && units[0] != 0 {
        lemma_prefix_len_le(units.drop_first());
    }
}

/// If no NUL stands before `i`, the text prefix reaches at least to `i`.
proof fn lemma_prefix_len_grows(units: Seq<u16>, i: int)
    requires
        0 <= i < units.len(),
        forall|j: int| 0 <= j < i ==> (#[trigger] units[j]) != 0,
        units[i] != 0,
    ensures
        prefix_len(units) > i,
    decreases i,
{
    if i > 0 {
        let rest = units.drop_first();
        assert(forall|j: int| 0 <= j < i - 1 ==> (#[trigger] rest[j]) == units[j + 1]);
        assert(rest[i - 1] == units[i]);
        lemma_prefix_len_grows(rest, i - 1);
    }
}

} // verus!
