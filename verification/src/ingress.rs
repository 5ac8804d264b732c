//! Command ingress validation: mapping a line-oriented textual command (a
//! symbolic source name or a bare decimal index) to a valid source index, or
//! rejecting it at the control-plane boundary.
//!
//! Lines and names are handled as byte strings, exactly as they arrive from a
//! connection. A request that resolves here is guaranteed to be a valid index
//! below the input count, so the audio thread can trust every dequeued value
//! without re-validating; a request that does not resolve is rejected without
//! touching any state.

use vstd::prelude::*;

verus! {

/// Whether every byte of `s` is an ASCII decimal digit.
pub open spec fn is_digits(s: Seq<u8>) -> bool {
    forall|i: int| 0 <= i < s.len() ==> 48 <= #[trigger] s[i] <= 57
}

/// Numeric value of a decimal digit string, most significant digit first.
pub open spec fn dec_value(s: Seq<u8>) -> int
    decreases s.len(),
{
    if s.len() == 0 {
        0
    } else {
        10 * dec_value(s.drop_last()) + (s.last() - 48)
    }
}

/// The value of a digit string is never negative.
proof fn lemma_dec_value_nonneg(s: Seq<u8>)
    requires
        is_digits(s),
    ensures
        dec_value(s) >= 0,
    decreases s.len(),
{
    if s.len() > 0 {
        assert(is_digits(s.drop_last()));
        lemma_dec_value_nonneg(s.drop_last());
    }
}

/// Appending digits never decreases the value: the whole digit string is
/// worth at least any of its prefixes.
proof fn lemma_dec_value_prefix(s: Seq<u8>, j: int)
    requires
        is_digits(s),
        0 <= j <= s.len(),
    ensures
        dec_value(s) >= dec_value(s.take(j)),
    decreases s.len() - j,
{
    if j < s.len() {
        lemma_dec_value_prefix(s, j + 1);
        assert(s.take(j + 1).drop_last() =~= s.take(j));
        assert(is_digits(s.take(j)));
        lemma_dec_value_nonneg(s.take(j));
    } else {
        assert(s.take(j) =~= s);
    }
}

/// Byte-string equality, element by element.
pub fn bytes_equal(a: &Vec<u8>, b: &Vec<u8>) -> (r: bool)
    ensures
        r == (a@ == b@),
{
    if a.len() != b.len() {
        proof {
            assert(a@ != b@);
        }
        return false;
    }
    let n = a.len();
    let mut i: usize = 0;
    while i < n
        invariant
            n == a@.len() == b@.len(),
            0 <= i <= n,
            forall|j: int| 0 <= j < i ==> a@[j] == b@[j],
        decreases n - i,
    {
        if a[i] != b[i] {
            return false;
        }
        i = i + 1;
    }
    proof {
        assert(a@ =~= b@);
    }
    true
}

/// Index of the first source whose name equals `line`, if any.
pub fn lookup_source(names: &Vec<Vec<u8>>, line: &Vec<u8>) -> (r: Option<usize>)
    ensures
        match r {
            Some(i) => i < names@.len() && names@[i as int]@ == line@ && (forall|j: int|
                0 <= j < i ==> names@[j]@ != line@),
            None => forall|j: int| 0 <= j < names@.len() ==> names@[j]@ != line@,
        },
{
    let n = names.len();
    let mut i: usize = 0;
    while i < n
        invariant
            n == names@.len(),
            0 <= i <= n,
            forall|j: int| 0 <= j < i ==> names@[j]@ != line@,
        decreases n - i,
    {
        if bytes_equal(&names[i], line) {
            return Some(i);
        }
        i = i + 1;
    }
    None
}

/// Parses `line` as a bare decimal index and accepts it only below `count`.
pub fn parse_index(line: &Vec<u8>, count: usize) -> (r: Option<usize>)
    ensures
        match r {
            Some(v) => v < count && line@.len() > 0 && is_digits(line@) && dec_value(line@)
                == v as int,
            None => line@.len() == 0 || !is_digits(line@) || dec_value(line@) >= count,
        },
{
    let n = line.len();
    if n == 0 {
        return None;
    }
    if count == 0 {
        proof {
            if is_digits(line@) {
                lemma_dec_value_nonneg(line@);
            }
        }
        return None;
    }
    let mut v: usize = 0;
    let mut j: usize = 0;
    while j < n
        invariant
            n == line@.len(),
            0 <= j <= n,
            count >= 1,
            is_digits(line@.take(j as int)),
            dec_value(line@.take(j as int)) == v as int,
            v < count,
        decreases n - j,
    {
        let d = line[j];
        if d < 48 || d > 57 {
            return None;
        }
        proof {
            assert(line@.take(j + 1).drop_last() =~= line@.take(j as int));
            assert(line@.take(j + 1).last() == line@[j as int]);
        }
        let scaled = v.checked_mul(10);
        match scaled {
            None => {
                proof {
                    if is_digits(line@) {
                        lemma_dec_value_prefix(line@, j + 1);
                    }
                }
                return None;
            },
            Some(t) => {
                let next = t.checked_add((d - 48) as usize);
                match next {
                    None => {
                        proof {
                            if is_digits(line@) {
                                lemma_dec_value_prefix(line@, j + 1);
                            }
                        }
                        return None;
                    },
                    Some(nv) => {
                        if nv >= count {
                            proof {
                                if is_digits(line@) {
                                    lemma_dec_value_prefix(line@, j + 1);
                                }
                            }
                            return None;
                        }
                        v = nv;
                        j = j + 1;
                    },
                }
            },
        }
    }
    proof {
        assert(line@.take(n as int) =~= line@);
    }
    Some(v)
}

/// Resolve one control line to a source index: a symbolic source name takes
/// priority; otherwise the line is accepted as a bare decimal index below the
/// number of sources. Anything else — an unknown name, a non-numeric line, or
/// an index at or beyond the input count — is rejected, and rejection never
/// reaches the audio thread, so the transition state and the output stay
/// unchanged.
pub fn resolve_command(names: &Vec<Vec<u8>>, line: &Vec<u8>) -> (r: Option<usize>)
    ensures
        match r {
            Some(i) => i < names@.len() && ((names@[i as int]@ == line@ && (forall|j: int|
                0 <= j < i ==> names@[j]@ != line@)) || ((forall|j: int|
                0 <= j < names@.len() ==> names@[j]@ != line@) && line@.len() > 0 && is_digits(
                line@,
            ) && dec_value(line@) == i as int)),
            None => (forall|j: int| 0 <= j < names@.len() ==> names@[j]@ != line@) && (line@.len()
                == 0 || !is_digits(line@) || dec_value(line@) >= names@.len()),
        },
{
    let by_name = lookup_source(names, line);
    match by_name {
        Some(i) => Some(i),
        None => parse_index(line, names.len()),
    }
}

} // verus!
