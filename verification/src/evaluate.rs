//! The condition evaluator capability.
//!
//! Whether an incoming payload satisfies a named condition is decided by an
//! expression evaluator that the relay consumes but does not own. The
//! `Evaluator` trait is that narrow interface: implementations state, through
//! `may_return`, which verdicts they can give for an expression and payload,
//! and the matching algorithm's contracts are relative to that statement. A
//! deterministic implementation pins `may_return` down to one verdict; an
//! implementation backed by an external expression engine admits any verdict
//! and stays fail-closed on undecodable payloads.

use vstd::prelude::*;
use vstd::utf8::{encode_utf8, valid_utf8};

verus! {

/// A boolean-expression evaluator, judging payload text.
pub trait Evaluator {
    /// Which verdicts the evaluator may return for this expression and
    /// payload. An implementation whose expressions are pure functions of the
    /// payload pins this to a single verdict for each input.
    spec fn may_return(&self, expr: Seq<char>, payload: Seq<u8>, verdict: bool) -> bool;

    /// Evaluates the expression against the payload, fail-closed: any
    /// evaluation failure is the verdict `false`, never an error.
    fn evaluate(&self, expr: &str, payload: &[u8]) -> (verdict: bool)
        ensures
            self.may_return(expr@, payload@, verdict),
    ;
}

/// Relies on `core::str::from_utf8`: it succeeds exactly on valid UTF-8 and
/// decodes to the characters whose encoding is the input.
#[verifier::external_body]
fn decode_utf8<'a>(bytes: &'a [u8]) -> (r: Option<&'a str>)
    ensures
        r is Some <==> valid_utf8(bytes@),
        r matches Some(s) ==> encode_utf8(s@) == bytes@,
{
    core::str::from_utf8(bytes).ok()
}

/// The payload as text, when it decodes as UTF-8; `None` otherwise. A payload
/// that does not decode must never reach an expression engine: its conditions
/// are simply false.
pub fn payload_text(payload: &[u8]) -> (r: Option<String>)
    ensures
        r is Some <==> valid_utf8(payload@),
        r matches Some(s) ==> encode_utf8(s@) == payload@,
{
    match decode_utf8(payload) {
        Some(text) => Some(text.to_owned()),
        None => None,
    }
}

/// An external boolean-expression engine: runs an expression against input
/// text and prints a result, or fails. Nothing is promised of the output —
/// an engine may consult the environment — so the relay treats every outcome
/// fail-closed. Implementations live outside the library, over plain values.
pub trait ExpressionEngine {
    /// The engine's printed output, or `None` on any compile or evaluation
    /// failure.
    fn run(&self, expr: &str, input: &str) -> Option<String>;
}

/// The evaluator over an external expression engine. Fail-closed throughout:
/// a payload that does not decode as text never reaches the engine and its
/// conditions are false; an engine failure, or any output other than the
/// match signal, is false as well.
pub struct EngineEvaluator<T: ExpressionEngine> {
    pub engine: T,
}

impl<T: ExpressionEngine> Evaluator for EngineEvaluator<T> {
    open spec fn may_return(&self, expr: Seq<char>, payload: Seq<u8>, verdict: bool) -> bool {
        !valid_utf8(payload) ==> verdict == false
    }

    fn evaluate(&self, expr: &str, payload: &[u8]) -> (verdict: bool) {
        match payload_text(payload) {
            None => false,
            Some(text) => match self.engine.run(expr, text.as_str()) {
                Some(out) => output_signals_match(&out),
                None => false,
            },
        }
    }
}

/// A deterministic evaluator with one fixed verdict, whatever the expression
/// and payload: the simplest test double the injected-evaluator design calls
/// for.
pub struct FixedEvaluator {
    pub verdict: bool,
}

impl Evaluator for FixedEvaluator {
    open spec fn may_return(&self, expr: Seq<char>, payload: Seq<u8>, verdict: bool) -> bool {
        verdict == self.verdict
    }

    fn evaluate(&self, expr: &str, payload: &[u8]) -> (verdict: bool) {
        self.verdict
    }
}

/// Whether every byte is an ASCII decimal digit.
pub open spec fn spec_all_digits(b: Seq<u8>) -> bool {
    forall|i: int| 0 <= i < b.len() ==> 48 <= #[trigger] b[i] <= 57
}

/// The value of an ASCII decimal numeral.
pub open spec fn spec_digits_value(b: Seq<u8>) -> int
    decreases b.len(),
{
    if b.len() == 0 {
        0
    } else {
        spec_digits_value(b.drop_last()) * 10 + (b.last() - 48)
    }
}

/// The numeric reading of a payload: a plain unsigned decimal numeral of at
/// most 19 digits, and nothing else.
pub open spec fn spec_decimal(b: Seq<u8>) -> Option<int> {
    if 1 <= b.len() <= 19 && spec_all_digits(b) {
        Some(spec_digits_value(b))
    } else {
        None
    }
}

/// Ten to the `n`-th.
pub open spec fn spec_pow10(n: nat) -> int
    decreases n,
{
    if n == 0 {
        1
    } else {
        10 * spec_pow10((n - 1) as nat)
    }
}

proof fn lemma_pow10_le(a: nat, b: nat)
    requires
        a <= b,
    ensures
        1 <= spec_pow10(a) <= spec_pow10(b),
    decreases b,
{
    if a < b {
        lemma_pow10_le(a, (b - 1) as nat);
    } else if a == b && a > 0 {
        lemma_pow10_le((a - 1) as nat, (b - 1) as nat);
    }
}

/// A deterministic evaluator standing in for a numeric-threshold condition:
/// true exactly when the payload is a plain decimal numeral above the
/// configured threshold. The expression text plays no part; the threshold
/// stands for it.
pub struct ThresholdEvaluator {
    pub threshold: i64,
}

impl Evaluator for ThresholdEvaluator {
    open spec fn may_return(&self, expr: Seq<char>, payload: Seq<u8>, verdict: bool) -> bool {
        verdict == (spec_decimal(payload) matches Some(n) && n > self.threshold as int)
    }

    fn evaluate(&self, expr: &str, payload: &[u8]) -> (verdict: bool) {
        let n = payload.len();
        if n == 0 || n > 19 {
            return false;
        }
        let mut value: u128 = 0;
        let mut i: usize = 0;
        proof {
            assert(payload@.take(0) =~= Seq::<u8>::empty());
        }
        while i < n
            invariant
                n == payload@.len(),
                1 <= n <= 19,
                i <= n,
                forall|j: int| 0 <= j < i ==> 48 <= #[trigger] payload@[j] <= 57,
                value == spec_digits_value(payload@.take(i as int)),
                value < spec_pow10(i as nat),
            decreases n - i,
        {
            let b = payload[i];
            if b < 48 || b > 57 {
                return false;
            }
            proof {
                assert(payload@.take(i as int + 1).drop_last() =~= payload@.take(i as int));
                assert(payload@.take(i as int + 1).last() == payload@[i as int]);
                lemma_pow10_le(i as nat, 18);
                assert(spec_pow10(18) == 1000000000000000000) by {
                    reveal_with_fuel(spec_pow10, 19);
                }
            }
            value = value * 10 + ((b - 48) as u128);
            i = i + 1;
        }
        proof {
            assert(payload@.take(n as int) =~= payload@);
        }
        if self.threshold < 0 {
            true
        } else {
            value > (self.threshold as u128)
        }
    }
}

/// Whether an expression engine's printed output signals a match: exactly the
/// text `true` followed by one newline.
pub open spec fn spec_is_match_output(out: Seq<char>) -> bool {
    out == "true\n"@
}

/// Whether the engine's printed output signals a match.
pub fn output_signals_match(out: &String) -> (r: bool)
    ensures
        r == spec_is_match_output(out@),
{
    let expected: String = "true\n".to_owned();
    *out == expected
}

} // verus!
