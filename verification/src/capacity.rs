//! `CpuCapacity`: a unit-safe scalar of compute budget counted in
//! milli-CPUs (1000 = one full CPU thread).
//!
//! The textual form is canonical on the way out — always `<millis>m` — and
//! permissive on the way in: the strict path reads `<millis>m`, and a
//! separate lenient path also reads a plain decimal count of whole CPUs
//! (`"1.2"` meaning 1200 milli-CPUs, truncated toward zero). The two input
//! paths are deliberately distinct functions so that tightening one can
//! never tighten the other.
use vstd::prelude::*;
use vstd::string::*;

use crate::decimal::{
    all_digit_chars, decimal_rep, digit_value, is_digit_char, is_numeral, lemma_decimal_rep,
    numeral_value, parse_u32_numeral, u32_to_decimal_string,
};

verus! {

/// An amount of CPU resource, counted in milli-CPUs.
#[derive(Clone, Copy, Debug, PartialEq, Eq, Structural, Hash, PartialOrd, Ord)]
pub struct CpuCapacity {
    millis: u32,
}

impl View for CpuCapacity {
    type V = nat;

    closed spec fn view(&self) -> nat {
        self.millis as nat
    }
}

/// Short helper to build a `CpuCapacity`.
pub fn mcpu(milli_cpus: u32) -> (c: CpuCapacity)
    ensures
        c@ == milli_cpus as nat,
{
    CpuCapacity::from_cpu_millis(milli_cpus)
}

impl CpuCapacity {
    pub fn from_cpu_millis(cpu_millis: u32) -> (c: CpuCapacity)
        ensures
            c@ == cpu_millis as nat,
    {
        CpuCapacity { millis: cpu_millis }
    }

    pub fn cpu_millis(self) -> (r: u32)
        ensures
            r as nat == self@,
    {
        self.millis
    }

    pub fn zero() -> (c: CpuCapacity)
        ensures
            c@ == 0,
    {
        CpuCapacity::from_cpu_millis(0u32)
    }

    pub fn one_cpu_thread() -> (c: CpuCapacity)
        ensures
            c@ == 1000,
    {
        CpuCapacity::from_cpu_millis(1000u32)
    }

    /// Nominal budget of one full pipeline, ingestion and merging
    /// included: four CPU threads. A planning heuristic, not a hard cap.
    pub fn pipeline_full_capacity() -> (c: CpuCapacity)
        ensures
            c@ == 4000,
    {
        CpuCapacity::from_cpu_millis(4000u32)
    }

    /// Addition; the caller answers for staying within the machine bound.
    pub fn add(self, rhs: CpuCapacity) -> (r: CpuCapacity)
        requires
            self@ + rhs@ <= u32::MAX,
        ensures
            r@ == self@ + rhs@,
    {
        CpuCapacity { millis: self.millis + rhs.millis }
    }

    /// Subtraction; the caller answers for a non-negative result.
    pub fn sub(self, rhs: CpuCapacity) -> (r: CpuCapacity)
        requires
            rhs@ <= self@,
        ensures
            r@ == self@ - rhs@,
    {
        CpuCapacity { millis: self.millis - rhs.millis }
    }

    /// Scaling by an integer factor; the caller answers for the bound.
    pub fn mul(self, rhs: u32) -> (r: CpuCapacity)
        requires
            self@ * rhs as nat <= u32::MAX,
        ensures
            r@ == self@ * rhs as nat,
    {
        CpuCapacity { millis: self.millis * rhs }
    }
}

/// The canonical textual form: the decimal milli-CPU count, then `m`.
pub open spec fn capacity_text(millis: nat) -> Seq<char> {
    decimal_rep(millis) + "m"@
}

/// The strict textual form: a decimal numeral with the mandatory
/// trailing `m`, naming a count that fits the machine word.
pub open spec fn has_unit_suffix(s: Seq<char>) -> bool {
    s.len() > 0 && s.last() == 'm'
}

pub open spec fn is_capacity_text(s: Seq<char>) -> bool {
    has_unit_suffix(s) && is_numeral(s.drop_last()) && numeral_value(s.drop_last()) <= u32::MAX
}

pub open spec fn capacity_text_millis(s: Seq<char>) -> nat {
    numeral_value(s.drop_last())
}

/// The error reported when the trailing `m` is missing.
pub open spec fn missing_unit_message(s: Seq<char>) -> Seq<char> {
    "invalid cpu capacity: `"@ + s + "`. String format expects a trailing 'm'."@
}

/// The error reported when the part before the `m` is not a numeral.
pub open spec fn invalid_number_message(s: Seq<char>) -> Seq<char> {
    "invalid cpu capacity: `"@ + s + "`."@
}

impl CpuCapacity {
    /// The canonical form `<millis>m`, emitted for every capacity
    /// regardless of which input form produced it.
    pub fn display_string(&self) -> (r: String)
        ensures
            r@ == capacity_text(self@),
    {
        let mut out = u32_to_decimal_string(self.millis);
        out.append("m");
        out
    }

    /// The strict parse: accepts exactly the texts of `is_capacity_text`,
    /// and reports each malformed input with the reason.
    pub fn from_str(text: &str) -> (r: Result<CpuCapacity, String>)
        ensures
            match r {
                Ok(c) => is_capacity_text(text@) && c@ == capacity_text_millis(text@),
                Err(e) => !is_capacity_text(text@) && e@ == (if !has_unit_suffix(text@) {
                    missing_unit_message(text@)
                } else {
                    invalid_number_message(text@)
                }),
            },
    {
        let len = text.unicode_len();
        let has_suffix = if len == 0 {
            false
        } else {
            text.get_char(len - 1) == 'm'
        };
        if !has_suffix {
            let mut msg = String::from_str("invalid cpu capacity: `");
            msg.append(text);
            msg.append("`. String format expects a trailing 'm'.");
            return Err(msg);
        }
        let body = text.substring_char(0, len - 1);
        proof {
            assert(body@ =~= text@.drop_last());
        }
        match parse_u32_numeral(body) {
            Some(v) => Ok(CpuCapacity { millis: v }),
            None => {
                let mut msg = String::from_str("invalid cpu capacity: `");
                msg.append(text);
                msg.append("`.");
                Err(msg)
            },
        }
    }
}

/// Position of the first `.` in `s`, or `s.len()` if there is none.
pub open spec fn spec_dot_index(s: Seq<char>) -> int
    decreases s.len(),
{
    if s.len() == 0 {
        0
    } else if s[0] == '.' {
        0
    } else {
        1 + spec_dot_index(s.subrange(1, s.len() as int))
    }
}

proof fn lemma_dot_index(s: Seq<char>, i: int)
    requires
        0 <= i <= s.len(),
        forall|j: int| 0 <= j < i ==> s[j] != '.',
        i < s.len() ==> s[i] == '.',
    ensures
        spec_dot_index(s) == i,
    decreases i,
{
    if s.len() == 0 {
    } else if i == 0 {
    } else {
        let t = s.subrange(1, s.len() as int);
        assert(s[0] != '.');
        assert forall|j: int| 0 <= j < i - 1 implies t[j] != '.' by {
            assert(t[j] == s[j + 1]);
        }
        assert(i - 1 < t.len() ==> t[i - 1] == s[i]);
        lemma_dot_index(t, i - 1);
    }
}

/// Milli-CPUs named by the first three fractional digits: truncation
/// toward zero of one thousandth-scaling.
pub open spec fn frac_millis(f: Seq<char>) -> nat {
    if f.len() == 0 {
        0
    } else if f.len() == 1 {
        digit_value(f[0]) * 100
    } else if f.len() == 2 {
        digit_value(f[0]) * 100 + digit_value(f[1]) * 10
    } else {
        digit_value(f[0]) * 100 + digit_value(f[1]) * 10 + digit_value(f[2])
    }
}

/// The lenient textual form: a decimal count of whole CPUs, `<numeral>`
/// or `<numeral>.<digits>`.
pub open spec fn is_cpu_count_text(s: Seq<char>) -> bool {
    let d = spec_dot_index(s);
    if d == s.len() {
        is_numeral(s)
    } else {
        is_numeral(s.subrange(0, d)) && d + 1 < s.len() && all_digit_chars(
            s.subrange(d + 1, s.len() as int),
        )
    }
}

/// Milli-CPUs named by a lenient text: the whole-CPU count scaled by
/// one thousand, plus the first three fractional digits.
pub open spec fn cpu_count_millis(s: Seq<char>) -> nat {
    let d = spec_dot_index(s);
    if d == s.len() {
        numeral_value(s) * 1000
    } else {
        numeral_value(s.subrange(0, d)) * 1000 + frac_millis(s.subrange(d + 1, s.len() as int))
    }
}

/// The lenient parse: reads a decimal count of whole CPUs — the numeric
/// shape that deserialization admits beside the canonical `<millis>m`
/// string — truncating toward zero at milli-CPU precision.
pub fn parse_cpu_count(text: &str) -> (r: Option<CpuCapacity>)
    ensures
        match r {
            Some(c) => is_cpu_count_text(text@) && cpu_count_millis(text@) <= u32::MAX && c@
                == cpu_count_millis(text@),
            None => !(is_cpu_count_text(text@) && cpu_count_millis(text@) <= u32::MAX),
        },
{
    let len = text.unicode_len();
    let mut dot: usize = 0;
    while dot < len && text.get_char(dot) != '.'
        invariant
            0 <= dot <= len,
            len == text@.len(),
            forall|j: int| 0 <= j < dot ==> text@[j] != '.',
        decreases len - dot,
    {
        dot = dot + 1;
    }
    proof {
        lemma_dot_index(text@, dot as int);
    }
    if dot == len {
        match parse_u32_numeral(text) {
            None => None,
            Some(v) => {
                match v.checked_mul(1000) {
                    Some(m) => Some(CpuCapacity { millis: m }),
                    None => None,
                }
            },
        }
    } else {
        if dot + 1 == len {
            return None;
        }
        let int_part = text.substring_char(0, dot);
        let int_val = match parse_u32_numeral(int_part) {
            None => {
                return None;
            },
            Some(v) => v,
        };
        let ghost frac = text@.subrange(dot as int + 1, len as int);
        let mut f: u32 = 0;
        let mut j: usize = dot + 1;
        while j < len
            invariant
                dot + 1 <= j <= len,
                len == text@.len(),
                dot < len,
                frac == text@.subrange(dot as int + 1, len as int),
                spec_dot_index(text@) == dot as int,
                all_digit_chars(text@.subrange(dot as int + 1, j as int)),
                f as nat == frac_millis(text@.subrange(dot as int + 1, j as int)),
                f <= 999,
            decreases len - j,
        {
            let c = text.get_char(j);
            let v = c as u32;
            let ghost a = text@.subrange(dot as int + 1, j as int);
            let ghost b = text@.subrange(dot as int + 1, j as int + 1);
            proof {
                assert(frac[j - dot - 1] == text@[j as int]);
            }
            if v < 48 || v > 57 {
                proof {
                    assert(!is_digit_char(frac[j - dot - 1]));
                }
                return None;
            }
            let d: u32 = v - 48;
            proof {
                assert(is_digit_char(text@[j as int]));
                assert(digit_value(text@[j as int]) == d as nat);
                assert(d <= 9);
                assert(b.len() == a.len() + 1);
                assert forall|k: int| 0 <= k < a.len() implies b[k] == a[k] by {}
                assert(b[a.len() as int] == text@[j as int]);
            }
            if j == dot + 1 {
                f = d * 100;
            } else if j == dot + 2 {
                f = f + d * 10;
            } else if j == dot + 3 {
                f = f + d;
            }
            proof {
                assert(f as nat == frac_millis(b));
            }
            j = j + 1;
        }
        proof {
            assert(text@.subrange(dot as int + 1, len as int) =~= frac);
        }
        match int_val.checked_mul(1000) {
            None => None,
            Some(m) => {
                match m.checked_add(f) {
                    None => None,
                    Some(total) => Some(CpuCapacity { millis: total }),
                }
            },
        }
    }
}

/// Canonical-out, permissive-in: the canonical text of any capacity is a
/// well-formed strict text that reads back to the same milli-CPU count.
pub proof fn lemma_canonical_text_round_trip(millis: u32)
    ensures
        is_capacity_text(capacity_text(millis as nat)),
        capacity_text_millis(capacity_text(millis as nat)) == millis as nat,
{
    reveal_strlit("m");
    lemma_decimal_rep(millis as nat);
    let digits = decimal_rep(millis as nat);
    let s = capacity_text(millis as nat);
    assert(s.len() == digits.len() + 1);
    assert(s.last() == 'm');
    assert(s.drop_last() =~= digits);
    assert(is_digit_char(digits[0]));
    assert(digits[0] as u32 != 43);
    assert('+' as u32 == 43);
    assert(digits[0] != '+');
}

} // verus!
